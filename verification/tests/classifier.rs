use free_ollama::scanner::rfc3339::{parse_instant, settle_instant};
use free_ollama::scanner::{ProbeOutcome, SimpleScanner, TransportErrorKind};
use free_ollama::storage::{
    Confidence, DetectionDetails, ModelDetails, ModelInfo, OllamaService, Target, Timestamp,
};

fn target() -> Target {
    Target {
        host: String::from("10.0.0.1"),
        port: 11434,
        source: String::from("Ollama-Assets-Line-1"),
        country: Some(String::from("DE")),
        is_https: false,
    }
}

fn now() -> Timestamp {
    Timestamp { seconds: 1_700_000_000, nanos: 5 }
}

fn ok(body: &str) -> ProbeOutcome {
    ProbeOutcome::Success { status_code: 200, elapsed: 42, body: body.as_bytes().to_vec() }
}

fn notes(record: &OllamaService) -> Vec<String> {
    record.detection_details.response_patterns.clone()
}

fn assert_inactive(record: &OllamaService, elapsed: u64, note: &str) {
    assert!(!record.is_active);
    assert_eq!(record.confidence_score, Some(Confidence::none()));
    assert_eq!(record.confidence_score.unwrap().thousandths(), 0);
    assert_eq!(record.version, None);
    assert!(record.models.is_empty());
    assert_eq!(record.response_time, Some(elapsed));
    assert_eq!(record.scan_time, now());
    assert_eq!(record.target, target());
    assert_eq!(notes(record), vec![String::from(note)]);
    assert!(record.detection_details.endpoints_checked.is_empty());
    assert!(record.detection_details.http_headers.is_empty());
    assert!(record.detection_details.authenticity_indicators.is_empty());
}

const LLAMA3: &str = "{\"models\":[{\"name\":\"llama3\",\"modified_at\":\"2024-01-01T00:00:00Z\",\"size\":4000000000,\"digest\":\"abc\",\"details\":{\"format\":\"gguf\",\"family\":\"llama\",\"families\":[\"llama\"],\"parameter_size\":\"8B\",\"quantization_level\":\"Q4_0\"}}]}";

#[test]
fn one_listed_model_makes_an_active_service() {
    let record = SimpleScanner::classify(target(), ok(LLAMA3), now());
    assert!(record.is_active);
    assert_eq!(record.confidence_score, Some(Confidence::full()));
    assert_eq!(record.confidence_score.unwrap().thousandths(), 1000);
    assert_eq!(record.target, target());
    assert_eq!(record.response_time, Some(42));
    assert_eq!(record.scan_time, now());
    assert_eq!(record.version, Some(String::from("gguf")));
    assert_eq!(notes(&record), vec![String::from("found 1 models, format: gguf")]);
    assert_eq!(
        record.models,
        vec![ModelInfo {
            name: String::from("llama3"),
            size: Some(4_000_000_000),
            modified_at: Some(Timestamp { seconds: 1_704_067_200, nanos: 0 }),
            digest: Some(String::from("abc")),
            details: Some(ModelDetails {
                format: Some(String::from("gguf")),
                family: Some(String::from("llama")),
                families: Some(vec![String::from("llama")]),
                parameter_size: Some(String::from("8B")),
                quantization_level: Some(String::from("Q4_0")),
            }),
        }]
    );
}

#[test]
fn refused_connection_makes_an_inactive_record() {
    let outcome =
        ProbeOutcome::TransportFailure { elapsed: 3, error_kind: TransportErrorKind::Connection };
    let record = SimpleScanner::classify(target(), outcome, now());
    assert_inactive(&record, 3, "connection");
}

#[test]
fn every_transport_failure_is_inactive_without_confidence() {
    let kinds = [
        (TransportErrorKind::Timeout, "timeout"),
        (TransportErrorKind::Connection, "connection"),
        (TransportErrorKind::Tls, "tls"),
        (TransportErrorKind::Protocol, "protocol"),
        (TransportErrorKind::Other, "other"),
    ];
    for (kind, word) in kinds {
        assert_eq!(kind.label(), word);
        let outcome = ProbeOutcome::TransportFailure { elapsed: 1500, error_kind: kind };
        let record = SimpleScanner::classify(target(), outcome, now());
        assert_inactive(&record, 1500, word);
    }
}

#[test]
fn internal_fault_degrades_to_other() {
    assert_eq!(
        ProbeOutcome::internal_fault(9),
        ProbeOutcome::TransportFailure { elapsed: 9, error_kind: TransportErrorKind::Other }
    );
    let record = SimpleScanner::classify(target(), ProbeOutcome::internal_fault(9), now());
    assert_inactive(&record, 9, "other");
}

#[test]
fn empty_inventory_is_inactive_despite_status_200() {
    let record = SimpleScanner::classify(target(), ok("{\"models\":[]}"), now());
    assert_inactive(&record, 42, "no models reported");
}

#[test]
fn other_status_is_inactive_whatever_the_body() {
    for (code, note) in [
        (404u16, "unexpected status 404"),
        (500, "unexpected status 500"),
        (201, "unexpected status 201"),
        (0, "unexpected status 0"),
        (65535, "unexpected status 65535"),
    ] {
        let outcome = ProbeOutcome::Success {
            status_code: code,
            elapsed: 7,
            body: LLAMA3.as_bytes().to_vec(),
        };
        let record = SimpleScanner::classify(target(), outcome, now());
        assert_inactive(&record, 7, note);
    }
}

#[test]
fn body_of_another_shape_is_invalid() {
    for body in [
        "",
        "not json",
        "<html></html>",
        "{}",
        "[]",
        "null",
        "{\"models\":5}",
        "{\"models\":{\"name\":\"x\"}}",
        "{\"models\":null}",
        "{\"model\":[]}",
        "[{\"models\":[]}]",
        "{\"models\":[]} trailing",
        "{\"models\":[",
    ] {
        let record = SimpleScanner::classify(target(), ok(body), now());
        assert_inactive(&record, 42, "invalid response body");
    }
}

#[test]
fn body_that_is_not_utf8_is_invalid() {
    let outcome = ProbeOutcome::Success { status_code: 200, elapsed: 42, body: vec![0xff, 0xfe] };
    let record = SimpleScanner::classify(target(), outcome, now());
    assert_inactive(&record, 42, "invalid response body");
}

#[test]
fn malformed_entries_still_count_as_models() {
    let body = "{\"models\":[{\"name\":\"only-a-name\"},7,{\"size\":-1,\"digest\":3,\"details\":[]}]}";
    let record = SimpleScanner::classify(target(), ok(body), now());
    assert!(record.is_active);
    assert_eq!(record.confidence_score.unwrap().thousandths(), 1000);
    assert_eq!(record.version, None);
    assert_eq!(notes(&record), vec![String::from("found 3 models, format: unknown")]);
    let bare = |name: &str| ModelInfo {
        name: String::from(name),
        size: None,
        modified_at: None,
        digest: None,
        details: None,
    };
    assert_eq!(record.models, vec![bare("only-a-name"), bare(""), bare("")]);
}

#[test]
fn fields_of_the_wrong_type_are_absent() {
    let body = "{\"models\":[{\"name\":\"m\",\"size\":1.5,\"modified_at\":12,\"details\":{\"format\":1,\"family\":\"f\",\"families\":[\"a\",2],\"extra\":true}}]}";
    let record = SimpleScanner::classify(target(), ok(body), now());
    assert!(record.is_active);
    assert_eq!(record.version, None);
    assert_eq!(
        record.models,
        vec![ModelInfo {
            name: String::from("m"),
            size: None,
            modified_at: None,
            digest: None,
            details: Some(ModelDetails {
                format: None,
                family: Some(String::from("f")),
                families: None,
                parameter_size: None,
                quantization_level: None,
            }),
        }]
    );
}

#[test]
fn version_and_note_follow_the_first_model() {
    let body = "{\"models\":[{\"name\":\"a\",\"details\":{\"format\":\"safetensors\"}},{\"name\":\"b\",\"details\":{\"format\":\"gguf\"}}],\"other\":1}";
    let record = SimpleScanner::classify(target(), ok(body), now());
    assert!(record.is_active);
    assert_eq!(record.version, Some(String::from("safetensors")));
    assert_eq!(notes(&record), vec![String::from("found 2 models, format: safetensors")]);
    assert_eq!(record.models.len(), 2);
    assert_eq!(record.models[0].name, "a");
    assert_eq!(record.models[1].name, "b");
}

#[test]
fn as_many_models_as_entries() {
    for count in [1usize, 2, 9, 10, 11, 120] {
        let entries: Vec<String> =
            (0..count).map(|i| format!("{{\"name\":\"m{}\"}}", i)).collect();
        let body = format!("{{\"models\":[{}]}}", entries.join(","));
        let record = SimpleScanner::classify(target(), ok(&body), now());
        assert!(record.is_active);
        assert_eq!(record.confidence_score.unwrap().thousandths(), 1000);
        assert_eq!(record.models.len(), count);
        assert_eq!(notes(&record), vec![format!("found {} models, format: unknown", count)]);
    }
}

#[test]
fn unreadable_modification_time_falls_back_to_now() {
    let body = "{\"models\":[{\"name\":\"a\",\"modified_at\":\"yesterday\"},{\"name\":\"b\",\"modified_at\":\"2024-01-01T02:00:00.25+02:00\"}]}";
    let record = SimpleScanner::classify(target(), ok(body), now());
    assert_eq!(record.models[0].modified_at, Some(now()));
    assert_eq!(
        record.models[1].modified_at,
        Some(Timestamp { seconds: 1_704_067_200, nanos: 250_000_000 })
    );
}

#[test]
fn instants_are_read_in_utc() {
    let fallback = Timestamp { seconds: -1, nanos: 1 };
    assert_eq!(
        parse_instant("1970-01-01T00:00:00Z", fallback),
        Timestamp { seconds: 0, nanos: 0 }
    );
    assert_eq!(
        parse_instant("1996-12-19T16:39:57-08:00", fallback),
        Timestamp { seconds: 851_042_397, nanos: 0 }
    );
    assert_eq!(parse_instant("1996-12-19", fallback), fallback);
    assert_eq!(parse_instant("", fallback), fallback);
    assert_eq!(settle_instant(None, fallback), fallback);
    assert_eq!(settle_instant(Some(now()), fallback), now());
}

#[test]
fn classifying_twice_gives_the_same_record() {
    let outcomes = [
        ok(LLAMA3),
        ok("{\"models\":[]}"),
        ok("nothing"),
        ProbeOutcome::Success { status_code: 503, elapsed: 1, body: Vec::new() },
        ProbeOutcome::TransportFailure { elapsed: 2, error_kind: TransportErrorKind::Tls },
    ];
    for outcome in outcomes {
        let first = SimpleScanner::classify(target(), outcome.clone(), now());
        let second = SimpleScanner::classify(target(), outcome, now());
        assert_eq!(first, second);
    }
}

#[test]
fn records_are_consistent() {
    let outcomes = [
        ok(LLAMA3),
        ok("{\"models\":[]}"),
        ok("nothing"),
        ProbeOutcome::Success { status_code: 301, elapsed: 1, body: Vec::new() },
        ProbeOutcome::TransportFailure { elapsed: 2, error_kind: TransportErrorKind::Timeout },
    ];
    for outcome in outcomes {
        let record = SimpleScanner::classify(target(), outcome, now());
        let score = record.confidence_score.unwrap().thousandths();
        assert!(score <= 1000);
        if record.is_active {
            assert!(record.response_time.is_some());
            assert!(score > 0);
        } else {
            assert!(record.models.is_empty());
            assert!(record.version.is_none());
        }
    }
}

#[test]
fn classify_models_is_the_last_step() {
    let empty = SimpleScanner::classify_models(target(), 5, Vec::new(), now());
    assert_inactive(&empty, 5, "no models reported");
    let model = ModelInfo {
        name: String::from("x"),
        size: Some(1),
        modified_at: None,
        digest: None,
        details: Some(ModelDetails {
            format: Some(String::from("gguf")),
            family: None,
            families: None,
            parameter_size: None,
            quantization_level: None,
        }),
    };
    let record = SimpleScanner::classify_models(target(), 5, vec![model.clone()], now());
    assert_eq!(
        record,
        OllamaService {
            target: target(),
            is_active: true,
            version: Some(String::from("gguf")),
            models: vec![model],
            scan_time: now(),
            response_time: Some(5),
            confidence_score: Some(Confidence::full()),
            detection_details: DetectionDetails::with_note(String::from(
                "found 1 models, format: gguf"
            )),
        }
    );
}

#[test]
fn inactive_holds_one_note() {
    let record = SimpleScanner::inactive(target(), 8, String::from("why"), now());
    assert_inactive(&record, 8, "why");
    assert_eq!(DetectionDetails::default().response_patterns, Vec::<String>::new());
}

#[test]
fn probe_asks_for_the_tags() {
    assert_eq!(SimpleScanner::probe_url(&target()), "http://10.0.0.1:11434/api/tags");
    let secure = Target { is_https: true, port: 443, ..target() };
    assert_eq!(SimpleScanner::probe_url(&secure), "https://10.0.0.1:443/api/tags");
}

#[test]
fn active_services_keeps_the_active_in_order() {
    let first = SimpleScanner::classify(target(), ok(LLAMA3), now());
    let second = SimpleScanner::classify(target(), ok("{}"), now());
    let third = SimpleScanner::classify(
        Target { host: String::from("b"), ..target() },
        ok(LLAMA3),
        now(),
    );
    let all = vec![first.clone(), second, third.clone()];
    assert_eq!(SimpleScanner::active_services(&all), vec![&first, &third]);
    assert!(SimpleScanner::active_services(&[]).is_empty());
}

#[test]
fn timeout_counts_before_all_else() {
    assert_eq!(TransportErrorKind::from_flags(true, true, true, true), TransportErrorKind::Timeout);
    assert_eq!(
        TransportErrorKind::from_flags(true, false, false, false),
        TransportErrorKind::Timeout
    );
    assert_eq!(TransportErrorKind::from_flags(false, true, true, true), TransportErrorKind::Tls);
    assert_eq!(
        TransportErrorKind::from_flags(false, false, true, true),
        TransportErrorKind::Connection
    );
    assert_eq!(
        TransportErrorKind::from_flags(false, false, false, true),
        TransportErrorKind::Protocol
    );
    assert_eq!(
        TransportErrorKind::from_flags(false, false, false, false),
        TransportErrorKind::Other
    );
}

#[test]
fn confidence_stays_in_range() {
    assert_eq!(Confidence::from_thousandths(0), Some(Confidence::none()));
    assert_eq!(Confidence::from_thousandths(1000), Some(Confidence::full()));
    assert_eq!(Confidence::from_thousandths(500).unwrap().thousandths(), 500);
    assert_eq!(Confidence::from_thousandths(1001), None);
    assert_eq!(Confidence::from_thousandths(u16::MAX), None);
}
