//! What one probe of a target came to.

use vstd::prelude::*;

verus! {

/// Why a probe got no HTTP response.
#[derive(Clone, Copy, Debug, PartialEq, Eq, Structural)]
pub enum TransportErrorKind {
    Timeout,
    Connection,
    Tls,
    Protocol,
    Other,
}

impl TransportErrorKind {
    /// The word under which the kind is reported.
    pub open spec fn label_text(self) -> Seq<char> {
        match self {
            TransportErrorKind::Timeout => "timeout"@,
            TransportErrorKind::Connection => "connection"@,
            TransportErrorKind::Tls => "tls"@,
            TransportErrorKind::Protocol => "protocol"@,
            TransportErrorKind::Other => "other"@,
        }
    }

    /// The kind that the observations of a failed request come to. A request
    /// that ran out of time timed out, whatever else is seen of it; of the
    /// rest, a failed handshake counts before a failed connection, and that
    /// before a broken exchange.
    pub open spec fn of_flags(timed_out: bool, tls: bool, connect: bool, protocol: bool)
        -> TransportErrorKind {
        if timed_out {
            TransportErrorKind::Timeout
        } else if tls {
            TransportErrorKind::Tls
        } else if connect {
            TransportErrorKind::Connection
        } else if protocol {
            TransportErrorKind::Protocol
        } else {
            TransportErrorKind::Other
        }
    }

    /// The word under which the kind is reported.
    pub fn label(&self) -> (word: &'static str)
        ensures
            word@ == self.label_text(),
    {
        match self {
            TransportErrorKind::Timeout => "timeout",
            TransportErrorKind::Connection => "connection",
            TransportErrorKind::Tls => "tls",
            TransportErrorKind::Protocol => "protocol",
            TransportErrorKind::Other => "other",
        }
    }

    /// Names the kind of a failed request from what was seen of it.
    pub fn from_flags(timed_out: bool, tls: bool, connect: bool, protocol: bool) -> (kind:
        TransportErrorKind)
        ensures
            kind == TransportErrorKind::of_flags(timed_out, tls, connect, protocol),
    {
        if timed_out {
            TransportErrorKind::Timeout
        } else if tls {
            TransportErrorKind::Tls
        } else if connect {
            TransportErrorKind::Connection
        } else if protocol {
            TransportErrorKind::Protocol
        } else {
            TransportErrorKind::Other
        }
    }
}

/// The outcome of one probe. `elapsed` is in milliseconds, from the moment
/// the request was issued to the moment its outcome was known.
#[derive(Debug, PartialEq, Eq)]
pub enum ProbeOutcome {
    Success { status_code: u16, elapsed: u64, body: Vec<u8> },
    TransportFailure { elapsed: u64, error_kind: TransportErrorKind },
}

pub enum ProbeOutcomeView {
    Success { status_code: u16, elapsed: u64, body: Seq<u8> },
    TransportFailure { elapsed: u64, error_kind: TransportErrorKind },
}

impl View for ProbeOutcome {
    type V = ProbeOutcomeView;

    open spec fn view(&self) -> ProbeOutcomeView {
        match *self {
            ProbeOutcome::Success { status_code, elapsed, body } => ProbeOutcomeView::Success {
                status_code,
                elapsed,
                body: body@,
            },
            ProbeOutcome::TransportFailure { elapsed, error_kind } => {
                ProbeOutcomeView::TransportFailure { elapsed, error_kind }
            },
        }
    }
}

/// The views of a list of outcomes, in order.
pub open spec fn outcome_views(outcomes: Seq<ProbeOutcome>) -> Seq<ProbeOutcomeView> {
    outcomes.map_values(|outcome: ProbeOutcome| outcome@)
}

/// A copy of `bytes`.
fn copy_bytes(bytes: &Vec<u8>) -> (copy: Vec<u8>)
    ensures
        copy@ == bytes@,
{
    let mut copy: Vec<u8> = Vec::new();
    let mut i: usize = 0;
    while i < bytes.len()
        invariant
            i <= bytes.len(),
            copy@ == bytes@.take(i as int),
        decreases bytes.len() - i,
    {
        copy.push(bytes[i]);
        assert(copy@ =~= bytes@.take(i + 1));
        i += 1;
    }
    assert(bytes@.take(i as int) =~= bytes@);
    copy
}

impl Clone for ProbeOutcome {
    fn clone(&self) -> (copy: ProbeOutcome)
        ensures
            copy@ == self@,
    {
        match self {
            ProbeOutcome::Success { status_code, elapsed, body } => ProbeOutcome::Success {
                status_code: *status_code,
                elapsed: *elapsed,
                body: copy_bytes(body),
            },
            ProbeOutcome::TransportFailure { elapsed, error_kind } => {
                ProbeOutcome::TransportFailure { elapsed: *elapsed, error_kind: *error_kind }
            },
        }
    }
}

impl ProbeOutcome {
    /// The outcome to which a unit of work that broke down before it had one
    /// is degraded.
    pub fn internal_fault(elapsed: u64) -> (outcome: ProbeOutcome)
        ensures
            outcome@ == (ProbeOutcomeView::TransportFailure {
                elapsed,
                error_kind: TransportErrorKind::Other,
            }),
    {
        ProbeOutcome::TransportFailure { elapsed, error_kind: TransportErrorKind::Other }
    }
}

} // verus!
