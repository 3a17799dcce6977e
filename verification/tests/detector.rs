use portknock::config::Config;
use portknock::config::Rule;
use portknock::detector::PortSequenceDetector;
use portknock::matching::ends_with_rule;

fn create_config() -> Config {
    Config {
        interface: "enp3s0".to_string(),
        timeout: 5,
        rules: vec![
            Rule {
                name: "enable ssh".to_string(),
                sequence: vec![1, 2, 3],
                command: "ls -lh".to_string(),
            },
            Rule {
                name: "disable ssh".to_string(),
                sequence: vec![3, 5, 6],
                command: "du -sh *".to_string(),
            },
        ],
    }
}

#[test]
fn test_new() {
    let config = create_config();
    let detector = PortSequenceDetector::new(config);
    assert_eq!(detector.relevant_port_count(), 5);
    assert_eq!(detector.rule_count(), 2);
    assert_eq!(detector.timeout_seconds(), 5);
}

#[test]
fn test_add_sequence() {
    let config = create_config();
    let mut detector = PortSequenceDetector::new(config);
    detector.add_sequence("127.0.0.1".to_owned(), 3);
    assert_eq!(detector.client_sequence("127.0.0.1"), Some(vec![3]));
}

#[test]
fn test_add_none_existing_sequence() {
    let config = create_config();
    let mut detector = PortSequenceDetector::new(config);
    detector.add_sequence("127.0.0.1".to_owned(), 9);
    assert_eq!(detector.client_sequence("127.0.0.1"), None);
}

#[test]
fn test_match_sequence() {
    let config = create_config();
    let mut detector = PortSequenceDetector::new(config);
    detector.add_sequence("127.0.0.1".to_owned(), 1);
    detector.add_sequence("127.0.0.1".to_owned(), 3);
    detector.add_sequence("127.0.0.1".to_owned(), 5);
    detector.add_sequence("127.0.0.1".to_owned(), 6);
    assert_eq!(detector.match_sequence("127.0.0.1"), false);
    assert_eq!(detector.client_sequence("127.0.0.1").unwrap().len(), 0);
}

#[test]
fn test_irrelevant_port_is_noop_for_any_client() {
    let mut detector = PortSequenceDetector::new(create_config());
    assert_eq!(detector.record_at("10.0.0.1".to_owned(), 9, 100), None);
    assert_eq!(detector.record_at("10.0.0.2".to_owned(), 4, 100), None);
    assert_eq!(detector.client_sequence("10.0.0.1"), None);
    assert_eq!(detector.client_sequence("10.0.0.2"), None);
    assert_eq!(detector.client_start_time("10.0.0.1"), None);
    assert_eq!(detector.client_start_time("10.0.0.2"), None);
}

#[test]
fn test_first_relevant_hit_creates_singleton_and_starts_clock() {
    let mut detector = PortSequenceDetector::new(create_config());
    assert_eq!(detector.record_at("10.0.0.9".to_owned(), 5, 321), None);
    assert_eq!(detector.client_sequence("10.0.0.9"), Some(vec![5]));
    assert_eq!(detector.client_start_time("10.0.0.9"), Some(321));
}

#[test]
fn test_knock_scenario_matches_second_rule() {
    let mut detector = PortSequenceDetector::new(create_config());
    assert_eq!(detector.record_at("10.1.1.1".to_owned(), 1, 100), None);
    assert_eq!(detector.record_at("10.1.1.1".to_owned(), 3, 100), None);
    assert_eq!(detector.record_at("10.1.1.1".to_owned(), 5, 100), None);
    assert_eq!(detector.record_at("10.1.1.1".to_owned(), 6, 100), Some(1));
    let left = detector.client_sequence("10.1.1.1").unwrap();
    assert_eq!(left.len(), 0);
}

#[test]
fn test_match_on_the_call_that_completes_the_suffix() {
    let mut detector = PortSequenceDetector::new(create_config());
    assert_eq!(detector.record_at("10.2.2.2".to_owned(), 1, 50), None);
    assert_eq!(detector.record_at("10.2.2.2".to_owned(), 2, 50), None);
    assert_eq!(detector.record_at("10.2.2.2".to_owned(), 3, 50), Some(0));
    assert_eq!(detector.client_sequence("10.2.2.2"), Some(vec![]));
    // The matched cycle's start time is deliberately left in place.
    assert_eq!(detector.client_start_time("10.2.2.2"), Some(50));
}

#[test]
fn test_timeout_expires_and_next_hit_starts_fresh_cycle() {
    let mut detector = PortSequenceDetector::new(create_config());
    assert_eq!(detector.record_at("10.3.3.3".to_owned(), 1, 100), None);
    // Within the window: still tracking.
    assert_eq!(detector.check_at("10.3.3.3", 105), None);
    assert_eq!(detector.client_sequence("10.3.3.3"), Some(vec![1]));
    assert_eq!(detector.client_start_time("10.3.3.3"), Some(100));
    // Past the window: sequence cleared, start time removed.
    assert_eq!(detector.check_at("10.3.3.3", 106), None);
    assert_eq!(detector.client_sequence("10.3.3.3"), Some(vec![]));
    assert_eq!(detector.client_start_time("10.3.3.3"), None);
    // The next relevant hit anchors a fresh window at its own time.
    assert_eq!(detector.record_at("10.3.3.3".to_owned(), 3, 200), None);
    assert_eq!(detector.client_sequence("10.3.3.3"), Some(vec![3]));
    assert_eq!(detector.client_start_time("10.3.3.3"), Some(200));
}

#[test]
fn test_window_is_anchored_to_first_hit() {
    let mut detector = PortSequenceDetector::new(create_config());
    assert_eq!(detector.record_at("10.4.4.4".to_owned(), 1, 100), None);
    assert_eq!(detector.record_at("10.4.4.4".to_owned(), 1, 104), None);
    // The second hit did not refresh the clock.
    assert_eq!(detector.client_start_time("10.4.4.4"), Some(100));
    assert_eq!(detector.check_at("10.4.4.4", 106), None);
    assert_eq!(detector.client_sequence("10.4.4.4"), Some(vec![]));
    assert_eq!(detector.client_start_time("10.4.4.4"), None);
}

#[test]
fn test_suffix_matching_is_exact() {
    assert!(ends_with_rule(&vec![9, 1, 2, 3], &vec![1, 2, 3]));
    assert!(ends_with_rule(&vec![1, 2, 3], &vec![2, 3]));
    assert!(ends_with_rule(&vec![1, 2, 3], &vec![1, 2, 3]));
    assert!(!ends_with_rule(&vec![1, 3], &vec![1, 2, 3]));
    assert!(!ends_with_rule(&vec![1, 2], &vec![1, 2, 3]));
    assert!(!ends_with_rule(&vec![1, 3, 2], &vec![2, 3]));
}

#[test]
fn test_interleaved_irrelevant_sequence_does_not_match() {
    let mut detector = PortSequenceDetector::new(create_config());
    // [1, 3] is not a suffix match for [1, 2, 3]: order must be contiguous.
    assert_eq!(detector.record_at("10.5.5.5".to_owned(), 1, 10), None);
    assert_eq!(detector.record_at("10.5.5.5".to_owned(), 3, 10), None);
    assert_eq!(detector.client_sequence("10.5.5.5"), Some(vec![1, 3]));
}

#[test]
fn test_earliest_configured_rule_wins_tie() {
    let config = Config {
        interface: "enp3s0".to_string(),
        timeout: 5,
        rules: vec![
            Rule {
                name: "long".to_string(),
                sequence: vec![1, 2, 3],
                command: "a".to_string(),
            },
            Rule {
                name: "short".to_string(),
                sequence: vec![2, 3],
                command: "b".to_string(),
            },
        ],
    };
    let mut detector = PortSequenceDetector::new(config);
    assert_eq!(detector.record_at("10.6.6.6".to_owned(), 1, 10), None);
    assert_eq!(detector.record_at("10.6.6.6".to_owned(), 2, 10), None);
    // Both rules now match; the first in configuration order is reported.
    assert_eq!(detector.record_at("10.6.6.6".to_owned(), 3, 10), Some(0));

    let flipped = Config {
        interface: "enp3s0".to_string(),
        timeout: 5,
        rules: vec![
            Rule {
                name: "short".to_string(),
                sequence: vec![2, 3],
                command: "b".to_string(),
            },
            Rule {
                name: "long".to_string(),
                sequence: vec![1, 2, 3],
                command: "a".to_string(),
            },
        ],
    };
    let mut detector = PortSequenceDetector::new(flipped);
    assert_eq!(detector.record_at("10.6.6.6".to_owned(), 1, 10), None);
    assert_eq!(detector.record_at("10.6.6.6".to_owned(), 2, 10), None);
    assert_eq!(detector.record_at("10.6.6.6".to_owned(), 3, 10), Some(0));
}

#[test]
fn test_empty_rule_set_never_tracks() {
    let config = Config {
        interface: "enp3s0".to_string(),
        timeout: 5,
        rules: vec![],
    };
    let mut detector = PortSequenceDetector::new(config);
    assert_eq!(detector.rule_count(), 0);
    assert_eq!(detector.relevant_port_count(), 0);
    assert_eq!(detector.record_at("10.7.7.7".to_owned(), 1, 10), None);
    assert_eq!(detector.client_sequence("10.7.7.7"), None);
}

#[test]
fn test_relevant_port_membership() {
    let detector = PortSequenceDetector::new(create_config());
    assert!(detector.is_relevant_port(1));
    assert!(detector.is_relevant_port(2));
    assert!(detector.is_relevant_port(3));
    assert!(detector.is_relevant_port(5));
    assert!(detector.is_relevant_port(6));
    assert!(!detector.is_relevant_port(4));
    assert!(!detector.is_relevant_port(9));
    assert!(!detector.is_relevant_port(0));
}

#[test]
fn test_clients_are_tracked_independently() {
    let mut detector = PortSequenceDetector::new(create_config());
    assert_eq!(detector.record_at("10.8.8.8".to_owned(), 1, 10), None);
    assert_eq!(detector.record_at("10.9.9.9".to_owned(), 2, 10), None);
    assert_eq!(detector.record_at("10.8.8.8".to_owned(), 2, 10), None);
    assert_eq!(detector.record_at("10.8.8.8".to_owned(), 3, 10), Some(0));
    assert_eq!(detector.client_sequence("10.9.9.9"), Some(vec![2]));
    assert_eq!(detector.client_sequence("10.8.8.8"), Some(vec![]));
}
