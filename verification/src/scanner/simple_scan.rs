//! The classifier: from the outcome of one probe to the record of a service.

use crate::scanner::json::{json_document, parse_document, JsonValue};
use crate::scanner::outcome::{ProbeOutcome, ProbeOutcomeView};
use crate::scanner::rfc3339::{instant_or, parse_instant, rfc3339_instant};
use crate::storage::models::{
    borrowed_records, clone_optional_text, model_views, record_views, Confidence,
    DetectionDetails, DetectionDetailsView, ModelDetails, ModelDetailsView, ModelInfo,
    ModelInfoView, OllamaService, OllamaServiceView, Target, TargetView, Timestamp,
};
use crate::utils::text::{decimal, decimal_text};
use vstd::prelude::*;
use vstd::string::*;

verus! {

/// The address that a probe of `target` asks.
pub open spec fn probe_address(target: TargetView) -> Seq<char> {
    target.base_url() + "/api/tags"@
}

/// The record of a target that is not taken for a service.
pub open spec fn inactive_record(
    target: TargetView,
    elapsed: u64,
    note: Seq<char>,
    now: Timestamp,
) -> OllamaServiceView {
    OllamaServiceView {
        target,
        is_active: false,
        version: None,
        models: Seq::empty(),
        scan_time: now,
        response_time: Some(elapsed),
        confidence_score: Some(0),
        detection_details: DetectionDetailsView::of_notes(seq![note]),
    }
}

/// The note of a response whose status is not 200.
pub open spec fn status_note(status_code: u16) -> Seq<char> {
    "unexpected status "@ + decimal(status_code as nat)
}

/// The format under which an inventory is reported: that of its first model,
/// or `unknown`.
pub open spec fn format_or_unknown(format: Option<Seq<char>>) -> Seq<char> {
    match format {
        Some(f) => f,
        None => "unknown"@,
    }
}

/// The note of a service with `count` models.
pub open spec fn found_note(count: nat, format: Option<Seq<char>>) -> Seq<char> {
    "found "@ + decimal(count) + " models, format: "@ + format_or_unknown(format)
}

/// The record of a target that answered with the inventory `models`: a
/// service where it lists a model, and no service where it lists none.
pub open spec fn classified_models(
    target: TargetView,
    elapsed: u64,
    models: Seq<ModelInfoView>,
    now: Timestamp,
) -> OllamaServiceView {
    if models.len() == 0 {
        inactive_record(target, elapsed, "no models reported"@, now)
    } else {
        OllamaServiceView {
            target,
            is_active: true,
            version: models[0].format(),
            models,
            scan_time: now,
            response_time: Some(elapsed),
            confidence_score: Some(1000),
            detection_details: DetectionDetailsView::of_notes(
                seq![found_note(models.len(), models[0].format())],
            ),
        }
    }
}

/// What an entry says of the model's build: the member `details` where it is
/// an object, each of its fields where it has the expected type.
pub open spec fn details_of(entry: JsonValue) -> Option<ModelDetailsView> {
    match entry.member("details"@) {
        Some(JsonValue::Object(members)) => {
            let d = JsonValue::Object(members);
            Some(
                ModelDetailsView {
                    format: d.text_member("format"@),
                    family: d.text_member("family"@),
                    families: d.text_list_member("families"@),
                    parameter_size: d.text_member("parameter_size"@),
                    quantization_level: d.text_member("quantization_level"@),
                },
            )
        },
        _ => None,
    }
}

/// The model that `entry` describes, given the instant settled for its
/// modification. A field that is missing, or not of the expected type, is
/// absent; a missing name is empty.
pub open spec fn model_of(entry: JsonValue, modified_at: Option<Timestamp>) -> ModelInfoView {
    ModelInfoView {
        name: match entry.text_member("name"@) {
            Some(name) => name,
            None => Seq::empty(),
        },
        size: entry.number_member("size"@),
        modified_at,
        digest: entry.text_member("digest"@),
        details: details_of(entry),
    }
}

/// The instant at which `entry` says the model was modified: none where the
/// entry has no such text, the instant read from the text where it is a date
/// and time, and `now` where it is not.
pub open spec fn modified_at_of(entry: JsonValue, now: Timestamp) -> Option<Timestamp> {
    match entry.text_member("modified_at"@) {
        Some(text) => Some(instant_or(rfc3339_instant(text), now)),
        None => None,
    }
}

/// The models that `entries` describe, one for each entry, in order.
pub open spec fn listed_models(entries: Seq<JsonValue>, now: Timestamp) -> Seq<ModelInfoView> {
    entries.map_values(|entry: JsonValue| model_of(entry, modified_at_of(entry, now)))
}

/// The entries of a response body: the member `models` of a document that is
/// an object, where that member is an array. `None` for every other body.
pub open spec fn inventory(doc: Option<JsonValue>) -> Option<Seq<JsonValue>> {
    match doc {
        Some(d) => match d.member("models"@) {
            Some(listed) => listed.items(),
            None => None,
        },
        None => None,
    }
}

/// The record of a target that answered with status 200 and the body `doc`.
pub open spec fn classified_document(
    target: TargetView,
    elapsed: u64,
    doc: Option<JsonValue>,
    now: Timestamp,
) -> OllamaServiceView {
    match inventory(doc) {
        Some(entries) => classified_models(target, elapsed, listed_models(entries, now), now),
        None => inactive_record(target, elapsed, "invalid response body"@, now),
    }
}

/// The record of a target whose probe came to `outcome`.
pub open spec fn classified(target: TargetView, outcome: ProbeOutcomeView, now: Timestamp)
    -> OllamaServiceView {
    match outcome {
        ProbeOutcomeView::TransportFailure { elapsed, error_kind } => inactive_record(
            target,
            elapsed,
            error_kind.label_text(),
            now,
        ),
        ProbeOutcomeView::Success { status_code, elapsed, body } => if status_code != 200 {
            inactive_record(target, elapsed, status_note(status_code), now)
        } else {
            classified_document(target, elapsed, json_document(body), now)
        },
    }
}

/// A probe that got no response makes no service: the record is inactive,
/// has no confidence, keeps the time that went by, and notes the kind of the
/// failure.
pub proof fn lemma_transport_failure_is_inactive(
    target: TargetView,
    elapsed: u64,
    error_kind: crate::scanner::outcome::TransportErrorKind,
    now: Timestamp,
)
    ensures
        ({
            let record = classified(
                target,
                ProbeOutcomeView::TransportFailure { elapsed, error_kind },
                now,
            );
            &&& !record.is_active
            &&& record.confidence_score == Some(0nat)
            &&& record.response_time == Some(elapsed)
            &&& record.detection_details.response_patterns == seq![error_kind.label_text()]
        }),
{
}

/// A response with a status other than 200 makes no service, whatever its
/// body holds.
pub proof fn lemma_other_status_is_inactive(
    target: TargetView,
    status_code: u16,
    elapsed: u64,
    body: Seq<u8>,
    now: Timestamp,
)
    requires
        status_code != 200,
    ensures
        ({
            let record = classified(
                target,
                ProbeOutcomeView::Success { status_code, elapsed, body },
                now,
            );
            &&& !record.is_active
            &&& record.confidence_score == Some(0nat)
            &&& record.detection_details.response_patterns == seq![status_note(status_code)]
        }),
{
}

/// A response with status 200 whose body lists at least one model makes a
/// service: the record is active, has full confidence, and holds one model
/// for each entry of the body.
pub proof fn lemma_listed_models_make_a_service(
    target: TargetView,
    elapsed: u64,
    body: Seq<u8>,
    now: Timestamp,
)
    requires
        inventory(json_document(body)) is Some,
        inventory(json_document(body))->0.len() > 0,
    ensures
        ({
            let record = classified(
                target,
                ProbeOutcomeView::Success { status_code: 200, elapsed, body },
                now,
            );
            &&& record.is_active
            &&& record.confidence_score == Some(1000nat)
            &&& record.response_time == Some(elapsed)
            &&& record.models.len() == inventory(json_document(body))->0.len()
        }),
{
}

/// A response with status 200 and a well-shaped body that lists no model
/// makes no service.
pub proof fn lemma_empty_inventory_is_inactive(
    target: TargetView,
    elapsed: u64,
    body: Seq<u8>,
    now: Timestamp,
)
    requires
        inventory(json_document(body)) is Some,
        inventory(json_document(body))->0.len() == 0,
    ensures
        ({
            let record = classified(
                target,
                ProbeOutcomeView::Success { status_code: 200, elapsed, body },
                now,
            );
            &&& !record.is_active
            &&& record.confidence_score == Some(0nat)
            &&& record.models.len() == 0
            &&& record.detection_details.response_patterns == seq!["no models reported"@]
        }),
{
}

/// A response with status 200 whose body is not an object with an array
/// `models` makes no service.
pub proof fn lemma_invalid_body_is_inactive(
    target: TargetView,
    elapsed: u64,
    body: Seq<u8>,
    now: Timestamp,
)
    requires
        inventory(json_document(body)) is None,
    ensures
        ({
            let record = classified(
                target,
                ProbeOutcomeView::Success { status_code: 200, elapsed, body },
                now,
            );
            &&& !record.is_active
            &&& record.confidence_score == Some(0nat)
            &&& record.detection_details.response_patterns == seq!["invalid response body"@]
        }),
{
}

/// Every record that the classifier makes is consistent, is about the target
/// it was asked about, and bears the instant it was given.
pub proof fn lemma_classified_is_consistent(
    target: TargetView,
    outcome: ProbeOutcomeView,
    now: Timestamp,
)
    ensures
        classified(target, outcome, now).is_consistent(),
        classified(target, outcome, now).target == target,
        classified(target, outcome, now).scan_time == now,
        classified(target, outcome, now).response_time is Some,
{
}

/// Classifying the same outcome of the same target at the same instant twice
/// makes the same record.
pub proof fn lemma_classification_repeats(
    first: OllamaService,
    second: OllamaService,
    target: TargetView,
    outcome: ProbeOutcomeView,
    now: Timestamp,
)
    requires
        first@ == classified(target, outcome, now),
        second@ == classified(target, outcome, now),
    ensures
        first@ == second@,
{
}

pub struct SimpleScanner;

impl SimpleScanner {
    /// The address that a probe of `target` asks.
    pub fn probe_url(target: &Target) -> (address: String)
        ensures
            address@ == probe_address(target@),
    {
        let mut address = target.base_url();
        address.append("/api/tags");
        address
    }

    /// The record of a target that is not taken for a service, with the one
    /// note that says why.
    pub fn inactive(target: Target, elapsed: u64, note: String, now: Timestamp) -> (record:
        OllamaService)
        ensures
            record@ == inactive_record(target@, elapsed, note@, now),
    {
        let record = OllamaService {
            target,
            is_active: false,
            version: None,
            models: Vec::new(),
            scan_time: now,
            response_time: Some(elapsed),
            confidence_score: Some(Confidence::none()),
            detection_details: DetectionDetails::with_note(note),
        };
        assert(record@.models =~= Seq::empty());
        record
    }

    /// Classifies a target that answered with the inventory `models`.
    pub fn classify_models(target: Target, elapsed: u64, models: Vec<ModelInfo>, now: Timestamp)
        -> (record: OllamaService)
        ensures
            record@ == classified_models(target@, elapsed, model_views(models@), now),
    {
        if models.len() == 0 {
            return Self::inactive(target, elapsed, String::from_str("no models reported"), now);
        }
        let format = match &models[0].details {
            Some(details) => clone_optional_text(&details.format),
            None => None,
        };
        let mut note = String::from_str("found ");
        note.append(decimal_text(models.len() as u64).as_str());
        note.append(" models, format: ");
        match &format {
            Some(f) => note.append(f.as_str()),
            None => note.append("unknown"),
        }
        OllamaService {
            target,
            is_active: true,
            version: format,
            models,
            scan_time: now,
            response_time: Some(elapsed),
            confidence_score: Some(Confidence::full()),
            detection_details: DetectionDetails::with_note(note),
        }
    }

    /// Reads what `entry` says of the model's build.
    pub fn model_details(entry: &JsonValue) -> (details: Option<ModelDetails>)
        ensures
            match details {
                Some(d) => details_of(*entry) == Some(d@),
                None => details_of(*entry) is None,
            },
    {
        match entry.get("details") {
            Some(d) => match d {
                JsonValue::Object(_) => Some(
                    ModelDetails {
                        format: d.get_text("format"),
                        family: d.get_text("family"),
                        families: d.get_text_list("families"),
                        parameter_size: d.get_text("parameter_size"),
                        quantization_level: d.get_text("quantization_level"),
                    },
                ),
                _ => None,
            },
            None => None,
        }
    }

    /// Reads one entry of an inventory, given the instant settled for
    /// its modification.
    pub fn model_info(entry: &JsonValue, modified_at: Option<Timestamp>) -> (model: ModelInfo)
        ensures
            model@ == model_of(*entry, modified_at),
    {
        let name = match entry.get_text("name") {
            Some(name) => name,
            None => String::new(),
        };
        ModelInfo {
            name,
            size: entry.get_number("size"),
            modified_at,
            digest: entry.get_text("digest"),
            details: Self::model_details(entry),
        }
    }

    /// Settles the instant at which `entry` says the model was modified.
    pub fn modified_at(entry: &JsonValue, now: Timestamp) -> (instant: Option<Timestamp>)
        ensures
            instant == modified_at_of(*entry, now),
    {
        match entry.get("modified_at") {
            Some(JsonValue::String(text)) => Some(parse_instant(text.as_str(), now)),
            _ => None,
        }
    }

    /// Reads the entries of an inventory, one model for each entry.
    pub fn list_models(entries: &Vec<JsonValue>, now: Timestamp) -> (models: Vec<ModelInfo>)
        ensures
            model_views(models@) == listed_models(entries@, now),
    {
        let mut models: Vec<ModelInfo> = Vec::new();
        let mut i: usize = 0;
        while i < entries.len()
            invariant
                i <= entries.len(),
                models.len() == i,
                forall|k: int|
                    0 <= k < i ==> (#[trigger] models@[k])@ == model_of(
                        entries@[k],
                        modified_at_of(entries@[k], now),
                    ),
            decreases entries.len() - i,
        {
            let instant = Self::modified_at(&entries[i], now);
            models.push(Self::model_info(&entries[i], instant));
            i += 1;
        }
        assert(model_views(models@) =~= listed_models(entries@, now));
        models
    }

    /// Classifies a target that answered with status 200 and the body `doc`,
    /// where `doc` is `None` for a body that is no JSON document.
    pub fn classify_document(target: Target, elapsed: u64, doc: &Option<JsonValue>, now: Timestamp)
        -> (record: OllamaService)
        ensures
            record@ == classified_document(target@, elapsed, *doc, now),
    {
        let entries = match doc {
            Some(d) => match d.get("models") {
                Some(JsonValue::Array(entries)) => Some(entries),
                _ => None,
            },
            None => None,
        };
        match entries {
            Some(entries) => {
                let models = Self::list_models(entries, now);
                Self::classify_models(target, elapsed, models, now)
            },
            None => Self::inactive(target, elapsed, String::from_str("invalid response body"), now),
        }
    }

    /// Picks the records of the targets that were taken for services.
    pub fn active_services(services: &[OllamaService]) -> (active: Vec<&OllamaService>)
        ensures
            borrowed_records(active@) == record_views(services@).filter(
                |record: OllamaServiceView| record.is_active,
            ),
    {
        let ghost keep = |record: OllamaServiceView| record.is_active;
        let mut active: Vec<&OllamaService> = Vec::new();
        let mut i: usize = 0;
        assert(record_views(services@).take(0) =~= Seq::empty());
        assert(borrowed_records(active@) =~= Seq::empty());
        assert(Seq::<OllamaServiceView>::empty().filter(keep) =~= Seq::empty()) by {
            reveal(Seq::filter);
        }
        while i < services.len()
            invariant
                i <= services.len(),
                keep == |record: OllamaServiceView| record.is_active,
                borrowed_records(active@) == record_views(services@).take(i as int).filter(keep),
            decreases services.len() - i,
        {
            let ghost before = record_views(services@).take(i as int);
            let ghost kept = borrowed_records(active@);
            proof {
                assert(record_views(services@).take(i + 1) =~= before.push(services@[i as int]@));
                before.lemma_filter_push(services@[i as int]@, keep);
            }
            if services[i].is_active {
                active.push(&services[i]);
                assert(borrowed_records(active@) =~= kept.push(services@[i as int]@));
            }
            i += 1;
        }
        assert(record_views(services@).take(i as int) =~= record_views(services@));
        active
    }

    /// Classifies a target by the outcome of its probe.
    pub fn classify(target: Target, outcome: ProbeOutcome, now: Timestamp) -> (record:
        OllamaService)
        ensures
            record@ == classified(target@, outcome@, now),
            record@.is_consistent(),
    {
        proof {
            lemma_classified_is_consistent(target@, outcome@, now);
        }
        match outcome {
            ProbeOutcome::TransportFailure { elapsed, error_kind } => Self::inactive(
                target,
                elapsed,
                String::from_str(error_kind.label()),
                now,
            ),
            ProbeOutcome::Success { status_code, elapsed, body } => {
                if status_code != 200 {
                    let mut note = String::from_str("unexpected status ");
                    note.append(decimal_text(status_code as u64).as_str());
                    Self::inactive(target, elapsed, note, now)
                } else {
                    let doc = parse_document(body.as_slice());
                    Self::classify_document(target, elapsed, &doc, now)
                }
            },
        }
    }
}

} // verus!
