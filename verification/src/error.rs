//! The errors of the library.

use vstd::prelude::*;
use vstd::string::*;

verus! {

/// Why an operation of the library failed.
#[derive(Clone, Debug, PartialEq, Eq)]
pub enum OllamaError {
    /// A link that is no URL with a host; holds the link.
    MalformedInput(String),
    /// A link whose scheme is neither `http` nor `https`; holds the link.
    UnsupportedScheme(String),
    ParseError(String),
    InvalidInput(String),
    ServiceUnavailable { endpoint: String },
    Timeout,
    AuthenticationFailed,
    DetectionFailed { reason: String },
    PerformanceTestFailed { reason: String },
}

pub enum OllamaErrorView {
    MalformedInput(Seq<char>),
    UnsupportedScheme(Seq<char>),
    ParseError(Seq<char>),
    InvalidInput(Seq<char>),
    ServiceUnavailable { endpoint: Seq<char> },
    Timeout,
    AuthenticationFailed,
    DetectionFailed { reason: Seq<char> },
    PerformanceTestFailed { reason: Seq<char> },
}

impl OllamaErrorView {
    /// The sentence that reports the error.
    pub open spec fn message(self) -> Seq<char> {
        match self {
            OllamaErrorView::MalformedInput(link) => "Malformed input: "@ + link,
            OllamaErrorView::UnsupportedScheme(link) => "Unsupported scheme: "@ + link,
            OllamaErrorView::ParseError(what) => "Parse error: "@ + what,
            OllamaErrorView::InvalidInput(what) => "Invalid input: "@ + what,
            OllamaErrorView::ServiceUnavailable { endpoint } => "Service unavailable: "@
                + endpoint,
            OllamaErrorView::Timeout => "Request timeout"@,
            OllamaErrorView::AuthenticationFailed => "Authentication failed"@,
            OllamaErrorView::DetectionFailed { reason } => "Service detection failed: "@ + reason,
            OllamaErrorView::PerformanceTestFailed { reason } => "Performance test failed: "@
                + reason,
        }
    }
}

impl View for OllamaError {
    type V = OllamaErrorView;

    open spec fn view(&self) -> OllamaErrorView {
        match *self {
            OllamaError::MalformedInput(link) => OllamaErrorView::MalformedInput(link@),
            OllamaError::UnsupportedScheme(link) => OllamaErrorView::UnsupportedScheme(link@),
            OllamaError::ParseError(what) => OllamaErrorView::ParseError(what@),
            OllamaError::InvalidInput(what) => OllamaErrorView::InvalidInput(what@),
            OllamaError::ServiceUnavailable { endpoint } => OllamaErrorView::ServiceUnavailable {
                endpoint: endpoint@,
            },
            OllamaError::Timeout => OllamaErrorView::Timeout,
            OllamaError::AuthenticationFailed => OllamaErrorView::AuthenticationFailed,
            OllamaError::DetectionFailed { reason } => OllamaErrorView::DetectionFailed {
                reason: reason@,
            },
            OllamaError::PerformanceTestFailed { reason } => {
                OllamaErrorView::PerformanceTestFailed { reason: reason@ }
            },
        }
    }
}

/// `head` followed by `tail`.
fn joined(head: &str, tail: &String) -> (text: String)
    ensures
        text@ == head@ + tail@,
{
    let mut text = String::from_str(head);
    text.append(tail.as_str());
    text
}

impl OllamaError {
    /// The sentence that reports the error.
    pub fn message(&self) -> (text: String)
        ensures
            text@ == self@.message(),
    {
        match self {
            OllamaError::MalformedInput(link) => joined("Malformed input: ", link),
            OllamaError::UnsupportedScheme(link) => joined("Unsupported scheme: ", link),
            OllamaError::ParseError(what) => joined("Parse error: ", what),
            OllamaError::InvalidInput(what) => joined("Invalid input: ", what),
            OllamaError::ServiceUnavailable { endpoint } => joined(
                "Service unavailable: ",
                endpoint,
            ),
            OllamaError::Timeout => String::from_str("Request timeout"),
            OllamaError::AuthenticationFailed => String::from_str("Authentication failed"),
            OllamaError::DetectionFailed { reason } => joined("Service detection failed: ", reason),
            OllamaError::PerformanceTestFailed { reason } => joined(
                "Performance test failed: ",
                reason,
            ),
        }
    }
}

} // verus!
