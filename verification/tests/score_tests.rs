use bench_nord_servers::outcome::Stats;
use bench_nord_servers::score::{
    best_game_index, best_usage_index, tabulate_score, ScoreError, Weight,
};

fn record(name: &[u8], latency: u64, jitter: u64, packet_loss: u64, download: u64, upload: u64) -> Stats {
    Stats {
        nord_server: name.to_vec(),
        server_ip: None,
        internet_ip: None,
        latency,
        jitter,
        packet_loss,
        no_pl_data: false,
        download,
        upload,
        game_score: 0,
        usage_score: 0,
    }
}

fn degraded(name: &[u8]) -> Stats {
    Stats {
        nord_server: name.to_vec(),
        server_ip: None,
        internet_ip: None,
        latency: 0,
        jitter: 0,
        packet_loss: 0,
        no_pl_data: true,
        download: 0,
        upload: 0,
        game_score: 0,
        usage_score: 0,
    }
}

// Two records, downloads 50 and 100, uploads 10 and 20, latency 20,
// jitter 1, packet loss 0 (all in thousandths of their unit).
fn two_records() -> Vec<Stats> {
    vec![
        record(b"a", 20_000, 1_000, 0, 50_000, 10_000),
        record(b"b", 20_000, 1_000, 0, 100_000, 20_000),
    ]
}

#[test]
fn higher_download_wins_usage() {
    let scored = tabulate_score(two_records(), Weight::game(), Weight::usage()).unwrap();
    assert!(scored[1].usage_score > scored[0].usage_score);
    assert_eq!(best_usage_index(&scored), Some(1));
}

#[test]
fn exact_scores_of_the_formula() {
    let scored = tabulate_score(two_records(), Weight::game(), Weight::usage()).unwrap();
    // Full-throughput record against the usage profile:
    // (1 - 20/250)*10 + (1 - 1/5)*10 + (1 - 0/3)*5 + 1*50 + 1*25 = 97.2
    assert_eq!(scored[1].usage_score, 97_200);
    // and against the game profile:
    // 0.92*50 + 0.8*15 + 1*25 + 1*5 + 1*5 = 93.0
    assert_eq!(scored[1].game_score, 93_000);
    // Half-throughput record: the throughput terms halve.
    assert_eq!(scored[0].usage_score, 59_700);
    assert_eq!(scored[0].game_score, 88_000);
}

#[test]
fn scoring_twice_changes_nothing() {
    let once = tabulate_score(two_records(), Weight::game(), Weight::usage()).unwrap();
    let twice = tabulate_score(once.clone(), Weight::game(), Weight::usage()).unwrap();
    assert_eq!(once.len(), twice.len());
    for (a, b) in once.iter().zip(twice.iter()) {
        assert_eq!(a.game_score, b.game_score);
        assert_eq!(a.usage_score, b.usage_score);
    }
}

#[test]
fn all_zero_downloads_fail() {
    let set = vec![degraded(b"a"), degraded(b"b")];
    assert!(matches!(
        tabulate_score(set, Weight::game(), Weight::usage()),
        Err(ScoreError::NoThroughputSignal)
    ));
    let empty: Vec<Stats> = Vec::new();
    assert!(matches!(
        tabulate_score(empty, Weight::game(), Weight::usage()),
        Err(ScoreError::NoThroughputSignal)
    ));
}

#[test]
fn degraded_records_keep_zero_scores() {
    let set = vec![
        record(b"a", 20_000, 1_000, 0, 50_000, 10_000),
        degraded(b"down"),
    ];
    let scored = tabulate_score(set, Weight::game(), Weight::usage()).unwrap();
    assert_eq!(scored.len(), 2);
    assert_eq!(scored[1].game_score, 0);
    assert_eq!(scored[1].usage_score, 0);
    assert!(scored[0].game_score > 0);
}

#[test]
fn ties_go_to_the_first_record() {
    let set = vec![
        record(b"a", 20_000, 1_000, 0, 100_000, 20_000),
        record(b"b", 20_000, 1_000, 0, 100_000, 20_000),
    ];
    let scored = tabulate_score(set, Weight::game(), Weight::usage()).unwrap();
    assert_eq!(scored[0].game_score, scored[1].game_score);
    assert_eq!(best_game_index(&scored), Some(0));
    assert_eq!(best_usage_index(&scored), Some(0));
}

#[test]
fn empty_set_has_no_best() {
    let empty: Vec<Stats> = Vec::new();
    assert_eq!(best_game_index(&empty), None);
    assert_eq!(best_usage_index(&empty), None);
}
