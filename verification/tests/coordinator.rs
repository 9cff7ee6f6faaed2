use free_ollama::scanner::{ProbeOutcome, ScanCoordinator, SimpleScanner, TransportErrorKind};
use free_ollama::storage::Timestamp;
use free_ollama::{OllamaError, OllamaService, Target};

fn targets(count: usize) -> Vec<Target> {
    (0..count)
        .map(|i| Target {
            host: format!("10.0.0.{}", i),
            port: 11434,
            source: format!("Ollama-Assets-Line-{}", i + 1),
            country: None,
            is_https: false,
        })
        .collect()
}

fn now() -> Timestamp {
    Timestamp { seconds: 10, nanos: 0 }
}

fn active(elapsed: u64) -> ProbeOutcome {
    ProbeOutcome::Success {
        status_code: 200,
        elapsed,
        body: b"{\"models\":[{\"name\":\"m\"}]}".to_vec(),
    }
}

fn refused(elapsed: u64) -> ProbeOutcome {
    ProbeOutcome::TransportFailure { elapsed, error_kind: TransportErrorKind::Connection }
}

/// Runs a scan in which, whenever no probe can start, the running probe at
/// position `pick(running)` of those running ends.
fn run(count: usize, limit: usize, pick: fn(usize) -> usize) -> (Vec<OllamaService>, usize) {
    let mut scan = ScanCoordinator::new(targets(count), limit).unwrap();
    let mut running: Vec<usize> = Vec::new();
    let mut most = 0;
    loop {
        loop {
            let (next, launched) = scan.launch();
            scan = next;
            match launched {
                Some((index, target)) => {
                    assert_eq!(target, targets(count)[index]);
                    running.push(index);
                },
                None => break,
            }
            assert_eq!(scan.probing(), running.len());
            assert!(scan.probing() <= limit);
            most = most.max(running.len());
        }
        if running.is_empty() {
            break;
        }
        let index = running.remove(pick(running.len()));
        let outcome = if index % 2 == 0 { active(index as u64) } else { refused(index as u64) };
        let before = scan.processed();
        let (next, taken) = scan.complete(index, outcome, now());
        scan = next;
        assert!(taken);
        assert_eq!(scan.processed(), before + 1);
        assert_eq!(scan.probing(), running.len());
    }
    assert!(scan.is_finished());
    assert_eq!(scan.processed(), scan.total());
    assert_eq!(scan.probing(), 0);
    (scan.into_services(), most)
}

fn assert_one_record_per_target(services: &[OllamaService], count: usize) {
    assert_eq!(services.len(), count);
    let all = targets(count);
    for (index, target) in all.iter().enumerate() {
        let found: Vec<&OllamaService> =
            services.iter().filter(|s| &s.target == target).collect();
        assert_eq!(found.len(), 1);
        assert_eq!(found[0].is_active, index % 2 == 0);
        assert_eq!(found[0].response_time, Some(index as u64));
        assert_eq!(found[0].scan_time, now());
    }
}

#[test]
fn fifty_targets_under_a_limit_of_ten() {
    let (first_out, most) = run(50, 10, |_| 0);
    assert_eq!(most, 10);
    assert_one_record_per_target(&first_out, 50);
    let (last_out, most) = run(50, 10, |running| running - 1);
    assert_eq!(most, 10);
    assert_one_record_per_target(&last_out, 50);
    let (middle_out, most) = run(50, 10, |running| running / 2);
    assert_eq!(most, 10);
    assert_one_record_per_target(&middle_out, 50);
}

#[test]
fn records_come_in_the_order_in_which_probes_end() {
    let (services, _) = run(4, 2, |running| running - 1);
    let hosts: Vec<&str> = services.iter().map(|s| s.target.host.as_str()).collect();
    assert_eq!(hosts, vec!["10.0.0.1", "10.0.0.2", "10.0.0.3", "10.0.0.0"]);
}

#[test]
fn a_limit_above_the_number_of_targets_launches_all() {
    let (services, most) = run(3, 8, |_| 0);
    assert_eq!(most, 3);
    assert_one_record_per_target(&services, 3);
    let (services, most) = run(7, 1, |_| 0);
    assert_eq!(most, 1);
    assert_one_record_per_target(&services, 7);
}

#[test]
fn a_scan_without_targets_is_finished_at_once() {
    let scan = ScanCoordinator::new(Vec::new(), 4).unwrap();
    assert!(scan.is_finished());
    assert_eq!(scan.total(), 0);
    let (scan, launched) = scan.launch();
    assert_eq!(launched, None);
    assert!(scan.into_services().is_empty());
}

#[test]
fn a_limit_of_zero_is_refused() {
    match ScanCoordinator::new(targets(2), 0) {
        Err(error) => assert_eq!(
            error,
            OllamaError::InvalidInput(String::from("concurrency limit must be positive"))
        ),
        Ok(_) => panic!("a scan that can start no probe was made"),
    }
}

#[test]
fn only_a_running_probe_can_end() {
    let scan = ScanCoordinator::new(targets(3), 2).unwrap();
    let (scan, taken) = scan.complete(0, refused(1), now());
    assert!(!taken);
    let (scan, launched) = scan.launch();
    assert_eq!(launched.map(|l| l.0), Some(0));
    let (scan, taken) = scan.complete(1, refused(1), now());
    assert!(!taken);
    let (scan, taken) = scan.complete(3, refused(1), now());
    assert!(!taken);
    let (scan, taken) = scan.complete(usize::MAX, refused(1), now());
    assert!(!taken);
    assert_eq!(scan.processed(), 0);
    assert_eq!(scan.probing(), 1);
    let (scan, taken) = scan.complete(0, refused(1), now());
    assert!(taken);
    let (scan, taken) = scan.complete(0, active(1), now());
    assert!(!taken);
    assert_eq!(scan.processed(), 1);
    assert_eq!(scan.probing(), 0);
    assert!(!scan.is_finished());
    let services = scan.into_services();
    assert_eq!(services.len(), 1);
    assert!(!services[0].is_active);
}

#[test]
fn no_probe_starts_while_the_limit_is_reached() {
    let scan = ScanCoordinator::new(targets(3), 1).unwrap();
    let (scan, first) = scan.launch();
    assert_eq!(first.map(|l| l.0), Some(0));
    let (scan, second) = scan.launch();
    assert_eq!(second, None);
    let (scan, taken) = scan.complete(0, active(1), now());
    assert!(taken);
    let (scan, third) = scan.launch();
    assert_eq!(third.map(|l| l.0), Some(1));
    assert_eq!(scan.probing(), 1);
}

fn outcomes(count: usize) -> Vec<ProbeOutcome> {
    (0..count)
        .map(|index| if index % 2 == 0 { active(index as u64) } else { refused(index as u64) })
        .collect()
}

fn by_host(mut services: Vec<OllamaService>) -> Vec<OllamaService> {
    services.sort_by(|a, b| a.target.source.cmp(&b.target.source));
    services
}

#[test]
fn a_whole_scan_gives_one_record_for_each_target() {
    for (count, limit) in [(0usize, 1usize), (1, 1), (7, 1), (7, 3), (3, 8), (50, 10), (50, 50)] {
        let services =
            SimpleScanner::scan_services(targets(count), &outcomes(count), limit, &Vec::new(), now())
                .unwrap();
        assert_one_record_per_target(&services, count);
    }
}

#[test]
fn a_whole_scan_classifies_each_target_by_its_outcome() {
    let services =
        SimpleScanner::scan_services(targets(5), &outcomes(5), 2, &vec![1, 0, 3], now()).unwrap();
    assert_eq!(services.len(), 5);
    for service in &services {
        let index = targets(5).iter().position(|t| t == &service.target).unwrap();
        let alone = SimpleScanner::classify(
            targets(5)[index].clone(),
            outcomes(5)[index].clone(),
            now(),
        );
        assert_eq!(service, &alone);
    }
}

#[test]
fn the_order_in_which_probes_end_does_not_change_the_records() {
    let plain = by_host(
        SimpleScanner::scan_services(targets(50), &outcomes(50), 10, &Vec::new(), now()).unwrap(),
    );
    for turns in [
        vec![0usize],
        vec![9],
        vec![1, 2, 3, 4, 5, 6, 7, 8, 9],
        vec![usize::MAX, 0, 17, 4],
        vec![5, 5, 0, 9, 2, 7],
    ] {
        let services =
            SimpleScanner::scan_services(targets(50), &outcomes(50), 10, &turns, now()).unwrap();
        assert_one_record_per_target(&services, 50);
        assert_eq!(by_host(services), plain);
    }
    let in_turn =
        SimpleScanner::scan_services(targets(4), &outcomes(4), 2, &vec![1], now()).unwrap();
    let hosts: Vec<&str> = in_turn.iter().map(|s| s.target.host.as_str()).collect();
    assert_eq!(hosts, vec!["10.0.0.1", "10.0.0.2", "10.0.0.3", "10.0.0.0"]);
}

#[test]
fn a_whole_scan_keeps_duplicate_targets_apart() {
    let twice = vec![targets(1)[0].clone(), targets(1)[0].clone(), targets(1)[0].clone()];
    let came = vec![active(1), refused(2), active(3)];
    let services = SimpleScanner::scan_services(twice, &came, 2, &vec![1], now()).unwrap();
    assert_eq!(services.len(), 3);
    let mut times: Vec<u64> = services.iter().map(|s| s.response_time.unwrap()).collect();
    times.sort();
    assert_eq!(times, vec![1, 2, 3]);
    assert_eq!(services.iter().filter(|s| s.is_active).count(), 2);
}

#[test]
fn a_whole_scan_wants_a_limit_and_an_outcome_for_each_target() {
    assert_eq!(
        SimpleScanner::scan_services(targets(2), &outcomes(2), 0, &Vec::new(), now()),
        Err(OllamaError::InvalidInput(String::from("concurrency limit must be positive")))
    );
    assert_eq!(
        SimpleScanner::scan_services(targets(2), &outcomes(3), 0, &Vec::new(), now()),
        Err(OllamaError::InvalidInput(String::from("concurrency limit must be positive")))
    );
    assert_eq!(
        SimpleScanner::scan_services(targets(2), &outcomes(1), 4, &Vec::new(), now()),
        Err(OllamaError::InvalidInput(String::from("one outcome for each target is needed")))
    );
    assert_eq!(
        SimpleScanner::scan_services(targets(0), &outcomes(1), 4, &Vec::new(), now()),
        Err(OllamaError::InvalidInput(String::from("one outcome for each target is needed")))
    );
}

#[test]
fn copies_of_outcomes_are_equal() {
    for outcome in outcomes(4) {
        assert_eq!(outcome.clone(), outcome);
    }
}
