//! The records of a scan: targets, model inventories and service records.
//!
//! Every type that owns text has a view in which each `String` is the
//! sequence of its characters; contracts are stated over these views.

use crate::utils::text::{decimal, decimal_text};
use vstd::prelude::*;
use vstd::string::*;

verus! {

/// An instant: whole seconds since the Unix epoch and the nanoseconds past
/// that second.
#[derive(Clone, Copy, Debug, PartialEq, Eq, Structural)]
pub struct Timestamp {
    pub seconds: i64,
    pub nanos: u32,
}

/// The certainty of a verdict, in thousandths between 0 and 1000.
#[derive(Clone, Copy, Debug, PartialEq, Eq)]
pub struct Confidence {
    thousandths: u16,
}

impl Confidence {
    #[verifier::type_invariant]
    spec fn in_range(self) -> bool {
        self.thousandths <= 1000
    }

    /// The score in thousandths.
    pub closed spec fn value(self) -> nat {
        self.thousandths as nat
    }

    /// No certainty at all.
    pub fn none() -> (c: Confidence)
        ensures
            c.value() == 0,
    {
        Confidence { thousandths: 0 }
    }

    /// Complete certainty.
    pub fn full() -> (c: Confidence)
        ensures
            c.value() == 1000,
    {
        Confidence { thousandths: 1000 }
    }

    /// A score of `thousandths` thousandths, if that is at most 1000.
    pub fn from_thousandths(thousandths: u16) -> (c: Option<Confidence>)
        ensures
            thousandths <= 1000 ==> c is Some && c->0.value() == thousandths,
            thousandths > 1000 ==> c is None,
    {
        if thousandths <= 1000 {
            Some(Confidence { thousandths })
        } else {
            None
        }
    }

    /// The score in thousandths, never above 1000.
    pub fn thousandths(&self) -> (n: u16)
        ensures
            n == self.value(),
            n <= 1000,
    {
        proof {
            use_type_invariant(self);
        }
        self.thousandths
    }
}

/// The view of an optional text.
pub open spec fn optional_text(text: Option<String>) -> Option<Seq<char>> {
    match text {
        Some(t) => Some(t@),
        None => None,
    }
}

/// The views of a list of texts, in order.
pub open spec fn texts(list: Seq<String>) -> Seq<Seq<char>> {
    list.map_values(|t: String| t@)
}

/// One candidate endpoint.
#[derive(Debug, PartialEq, Eq)]
pub struct Target {
    pub host: String,
    pub port: u16,
    pub source: String,
    pub country: Option<String>,
    pub is_https: bool,
}

pub struct TargetView {
    pub host: Seq<char>,
    pub port: u16,
    pub source: Seq<char>,
    pub country: Option<Seq<char>>,
    pub is_https: bool,
}

impl TargetView {
    /// `https` or `http`.
    pub open spec fn scheme(self) -> Seq<char> {
        if self.is_https {
            "https"@
        } else {
            "http"@
        }
    }

    /// `host:port`.
    pub open spec fn endpoint(self) -> Seq<char> {
        self.host + ":"@ + decimal(self.port as nat)
    }

    /// `scheme://host:port`.
    pub open spec fn base_url(self) -> Seq<char> {
        self.scheme() + "://"@ + self.host + ":"@ + decimal(self.port as nat)
    }

    /// A target that can be probed names a host and a port other than 0.
    pub open spec fn is_valid(self) -> bool {
        self.host.len() > 0 && self.port > 0
    }
}

impl View for Target {
    type V = TargetView;

    open spec fn view(&self) -> TargetView {
        TargetView {
            host: self.host@,
            port: self.port,
            source: self.source@,
            country: optional_text(self.country),
            is_https: self.is_https,
        }
    }
}

/// A copy of an optional text.
pub fn clone_optional_text(text: &Option<String>) -> (copy: Option<String>)
    ensures
        optional_text(copy) == optional_text(*text),
{
    match text {
        Some(t) => Some(t.clone()),
        None => None,
    }
}

impl Clone for Target {
    fn clone(&self) -> (copy: Target)
        ensures
            copy@ == self@,
    {
        Target {
            host: self.host.clone(),
            port: self.port,
            source: self.source.clone(),
            country: clone_optional_text(&self.country),
            is_https: self.is_https,
        }
    }
}

/// The views of a list of targets, in order.
pub open spec fn target_views(targets: Seq<Target>) -> Seq<TargetView> {
    targets.map_values(|target: Target| target@)
}

/// The views of a list of borrowed targets, in order.
pub open spec fn borrowed_targets(targets: Seq<&Target>) -> Seq<TargetView> {
    targets.map_values(|target: &Target| target@)
}

impl TargetView {
    /// Plain HTTP on port 80, with no host and no provenance.
    pub open spec fn blank() -> TargetView {
        TargetView {
            host: Seq::empty(),
            port: 80,
            source: Seq::empty(),
            country: None,
            is_https: false,
        }
    }
}

impl Default for Target {
    /// Plain HTTP on port 80, with no host and no provenance.
    fn default() -> (target: Target)
        ensures
            target@ == TargetView::blank(),
    {
        Target { host: String::new(), port: 80, source: String::new(), country: None, is_https: false }
    }
}

impl Target {
    /// `host:port`.
    pub fn endpoint(&self) -> (text: String)
        ensures
            text@ == self@.endpoint(),
    {
        let mut text = self.host.clone();
        text.append(":");
        text.append(decimal_text(self.port as u64).as_str());
        text
    }

    /// `scheme://host:port`.
    pub fn base_url(&self) -> (text: String)
        ensures
            text@ == self@.base_url(),
    {
        let protocol = if self.is_https {
            "https"
        } else {
            "http"
        };
        let mut text = String::from_str(protocol);
        text.append("://");
        text.append(self.host.as_str());
        text.append(":");
        text.append(decimal_text(self.port as u64).as_str());
        text
    }

    /// Whether the target names a host and a port other than 0.
    pub fn is_valid(&self) -> (valid: bool)
        ensures
            valid == self@.is_valid(),
    {
        !self.host.as_str().is_empty() && self.port > 0
    }
}

/// What a model entry says of the model's build.
#[derive(Clone, Debug, PartialEq, Eq)]
pub struct ModelDetails {
    pub format: Option<String>,
    pub family: Option<String>,
    pub families: Option<Vec<String>>,
    pub parameter_size: Option<String>,
    pub quantization_level: Option<String>,
}

pub struct ModelDetailsView {
    pub format: Option<Seq<char>>,
    pub family: Option<Seq<char>>,
    pub families: Option<Seq<Seq<char>>>,
    pub parameter_size: Option<Seq<char>>,
    pub quantization_level: Option<Seq<char>>,
}

impl View for ModelDetails {
    type V = ModelDetailsView;

    open spec fn view(&self) -> ModelDetailsView {
        ModelDetailsView {
            format: optional_text(self.format),
            family: optional_text(self.family),
            families: match self.families {
                Some(list) => Some(texts(list@)),
                None => None,
            },
            parameter_size: optional_text(self.parameter_size),
            quantization_level: optional_text(self.quantization_level),
        }
    }
}

/// One model of a service's inventory.
#[derive(Clone, Debug, PartialEq, Eq)]
pub struct ModelInfo {
    pub name: String,
    pub size: Option<u64>,
    pub modified_at: Option<Timestamp>,
    pub digest: Option<String>,
    pub details: Option<ModelDetails>,
}

pub struct ModelInfoView {
    pub name: Seq<char>,
    pub size: Option<u64>,
    pub modified_at: Option<Timestamp>,
    pub digest: Option<Seq<char>>,
    pub details: Option<ModelDetailsView>,
}

impl ModelInfoView {
    /// The format that the entry names, if it names one.
    pub open spec fn format(self) -> Option<Seq<char>> {
        match self.details {
            Some(details) => details.format,
            None => None,
        }
    }
}

impl View for ModelInfo {
    type V = ModelInfoView;

    open spec fn view(&self) -> ModelInfoView {
        ModelInfoView {
            name: self.name@,
            size: self.size,
            modified_at: self.modified_at,
            digest: optional_text(self.digest),
            details: match self.details {
                Some(details) => Some(details@),
                None => None,
            },
        }
    }
}

/// The views of a list of models, in order.
pub open spec fn model_views(list: Seq<ModelInfo>) -> Seq<ModelInfoView> {
    list.map_values(|m: ModelInfo| m@)
}

/// The outcome of a request to one path of a service.
#[derive(Clone, Debug, PartialEq, Eq)]
pub struct EndpointResult {
    pub path: String,
    pub status_code: Option<u16>,
    pub response_time: Option<u64>,
    pub success: bool,
    pub error: Option<String>,
}

pub struct EndpointResultView {
    pub path: Seq<char>,
    pub status_code: Option<u16>,
    pub response_time: Option<u64>,
    pub success: bool,
    pub error: Option<Seq<char>>,
}

impl View for EndpointResult {
    type V = EndpointResultView;

    open spec fn view(&self) -> EndpointResultView {
        EndpointResultView {
            path: self.path@,
            status_code: self.status_code,
            response_time: self.response_time,
            success: self.success,
            error: optional_text(self.error),
        }
    }
}

/// An observation that speaks for or against a service being genuine.
#[derive(Clone, Debug, PartialEq, Eq)]
pub struct AuthenticityIndicator {
    pub indicator_type: String,
    pub value: String,
    pub confidence: Confidence,
    pub description: String,
}

pub struct AuthenticityIndicatorView {
    pub indicator_type: Seq<char>,
    pub value: Seq<char>,
    pub confidence: Confidence,
    pub description: Seq<char>,
}

impl View for AuthenticityIndicator {
    type V = AuthenticityIndicatorView;

    open spec fn view(&self) -> AuthenticityIndicatorView {
        AuthenticityIndicatorView {
            indicator_type: self.indicator_type@,
            value: self.value@,
            confidence: self.confidence,
            description: self.description@,
        }
    }
}

/// What was seen while a verdict was reached. `response_patterns` holds the
/// notes of the classifier; `http_headers` is a map from header names to
/// values, kept as a list in which no name stands twice (`names_once`).
#[derive(Clone, Debug, PartialEq, Eq)]
pub struct DetectionDetails {
    pub endpoints_checked: Vec<EndpointResult>,
    pub http_headers: Vec<(String, String)>,
    pub response_patterns: Vec<String>,
    pub authenticity_indicators: Vec<AuthenticityIndicator>,
}

pub struct DetectionDetailsView {
    pub endpoints_checked: Seq<EndpointResultView>,
    pub http_headers: Seq<(Seq<char>, Seq<char>)>,
    pub response_patterns: Seq<Seq<char>>,
    pub authenticity_indicators: Seq<AuthenticityIndicatorView>,
}

impl DetectionDetailsView {
    /// Whether `http_headers` is a map: no header name stands in it twice.
    pub open spec fn names_once(self) -> bool {
        forall|i: int, j: int|
            0 <= i < j < self.http_headers.len() ==> self.http_headers[i].0
                != self.http_headers[j].0
    }

    /// Details that hold the notes `notes` and nothing else.
    pub open spec fn of_notes(notes: Seq<Seq<char>>) -> DetectionDetailsView {
        DetectionDetailsView {
            endpoints_checked: Seq::empty(),
            http_headers: Seq::empty(),
            response_patterns: notes,
            authenticity_indicators: Seq::empty(),
        }
    }
}

impl View for DetectionDetails {
    type V = DetectionDetailsView;

    open spec fn view(&self) -> DetectionDetailsView {
        DetectionDetailsView {
            endpoints_checked: self.endpoints_checked@.map_values(|e: EndpointResult| e@),
            http_headers: self.http_headers@.map_values(|h: (String, String)| (h.0@, h.1@)),
            response_patterns: texts(self.response_patterns@),
            authenticity_indicators: self.authenticity_indicators@.map_values(
                |a: AuthenticityIndicator| a@,
            ),
        }
    }
}

impl Default for DetectionDetails {
    /// Details that hold nothing.
    fn default() -> (details: DetectionDetails)
        ensures
            details@ == DetectionDetailsView::of_notes(Seq::empty()),
            details@.names_once(),
    {
        let details = DetectionDetails {
            endpoints_checked: Vec::new(),
            http_headers: Vec::new(),
            response_patterns: Vec::new(),
            authenticity_indicators: Vec::new(),
        };
        assert(details@.endpoints_checked =~= Seq::empty());
        assert(details@.http_headers =~= Seq::empty());
        assert(details@.response_patterns =~= Seq::empty());
        assert(details@.authenticity_indicators =~= Seq::empty());
        details
    }
}

impl DetectionDetails {
    /// Details that hold the single note `note` and nothing else.
    pub fn with_note(note: String) -> (details: DetectionDetails)
        ensures
            details@ == DetectionDetailsView::of_notes(seq![note@]),
            details@.names_once(),
    {
        let mut response_patterns: Vec<String> = Vec::new();
        response_patterns.push(note);
        let details = DetectionDetails {
            endpoints_checked: Vec::new(),
            http_headers: Vec::new(),
            response_patterns,
            authenticity_indicators: Vec::new(),
        };
        assert(details@.endpoints_checked =~= Seq::empty());
        assert(details@.http_headers =~= Seq::empty());
        assert(details@.response_patterns =~= seq![note@]);
        assert(details@.authenticity_indicators =~= Seq::empty());
        details
    }
}

/// The verdict on one target.
#[derive(Clone, Debug, PartialEq, Eq)]
pub struct OllamaService {
    pub target: Target,
    pub is_active: bool,
    pub version: Option<String>,
    pub models: Vec<ModelInfo>,
    pub scan_time: Timestamp,
    pub response_time: Option<u64>,
    pub confidence_score: Option<Confidence>,
    pub detection_details: DetectionDetails,
}

pub struct OllamaServiceView {
    pub target: TargetView,
    pub is_active: bool,
    pub version: Option<Seq<char>>,
    pub models: Seq<ModelInfoView>,
    pub scan_time: Timestamp,
    pub response_time: Option<u64>,
    pub confidence_score: Option<nat>,
    pub detection_details: DetectionDetailsView,
}

impl OllamaServiceView {
    /// What holds of every record that a scan hands out: an active service
    /// answered in a known time and is trusted; an inactive one has neither
    /// models nor a version; no header name is kept twice.
    pub open spec fn is_consistent(self) -> bool {
        &&& self.is_active ==> self.response_time is Some && self.confidence_score is Some
            && self.confidence_score->0 > 0
        &&& !self.is_active ==> self.models.len() == 0 && self.version is None
        &&& self.confidence_score is Some ==> self.confidence_score->0 <= 1000
        &&& self.detection_details.names_once()
    }
}

impl View for OllamaService {
    type V = OllamaServiceView;

    open spec fn view(&self) -> OllamaServiceView {
        OllamaServiceView {
            target: self.target@,
            is_active: self.is_active,
            version: optional_text(self.version),
            models: model_views(self.models@),
            scan_time: self.scan_time,
            response_time: self.response_time,
            confidence_score: match self.confidence_score {
                Some(c) => Some(c.value()),
                None => None,
            },
            detection_details: self.detection_details@,
        }
    }
}

impl OllamaService {
    /// The record of a target of which nothing is known yet: the default
    /// target, not active, with no answer and no verdict, as of `scan_time`.
    pub fn blank(scan_time: Timestamp) -> (record: OllamaService)
        ensures
            record@ == (OllamaServiceView {
                target: TargetView::blank(),
                is_active: false,
                version: None,
                models: Seq::empty(),
                scan_time,
                response_time: None,
                confidence_score: None,
                detection_details: DetectionDetailsView::of_notes(Seq::empty()),
            }),
            record@.is_consistent(),
    {
        let record = OllamaService {
            target: Target::default(),
            is_active: false,
            version: None,
            models: Vec::new(),
            scan_time,
            response_time: None,
            confidence_score: None,
            detection_details: DetectionDetails::default(),
        };
        assert(record@.models =~= Seq::empty());
        record
    }
}

/// The views of a list of records, in order.
pub open spec fn record_views(records: Seq<OllamaService>) -> Seq<OllamaServiceView> {
    records.map_values(|record: OllamaService| record@)
}

/// The views of a list of borrowed records, in order.
pub open spec fn borrowed_records(records: Seq<&OllamaService>) -> Seq<OllamaServiceView> {
    records.map_values(|record: &OllamaService| record@)
}

/// The kinds of test that can be run against a service.
#[derive(Clone, Copy, Debug, PartialEq, Eq, Structural)]
pub enum TestType {
    HealthCheck,
    PerformanceTest,
    TpsTest,
    AuthenticityTest,
    AntiDisguiseTest,
}

/// One row of the input: a country and the link of a candidate service.
#[derive(Clone, Debug, PartialEq, Eq)]
pub struct OllamaAssetCsv {
    pub country: String,
    pub link: String,
}

pub struct OllamaAssetCsvView {
    pub country: Seq<char>,
    pub link: Seq<char>,
}

impl View for OllamaAssetCsv {
    type V = OllamaAssetCsvView;

    open spec fn view(&self) -> OllamaAssetCsvView {
        OllamaAssetCsvView { country: self.country@, link: self.link@ }
    }
}

} // verus!
