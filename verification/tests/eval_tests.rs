use bench_nord_servers::addr::IP;
use bench_nord_servers::eval::{
    Driver, EndpointEval, EvalAction, EvalEvent, EvalStep, ConfigError, DEFAULT_RETRIES,
};
use bench_nord_servers::outcome::Stats;
use bench_nord_servers::sample::{SampleError, SpeedSample};

fn ip(octets: [u8; 4]) -> IP {
    IP { octets }
}

fn sample() -> SpeedSample {
    SpeedSample {
        latency: 5_483,
        jitter: 203,
        packet_loss: 0,
        no_pl_data: false,
        download: 5_000_500,
        upload: 1_200_250,
    }
}

fn step_on(m: EndpointEval, event: EvalEvent) -> EndpointEval {
    match m.step(event) {
        EvalStep::Continue(next) => next,
        EvalStep::Finished(_) => panic!("evaluation ended early"),
    }
}

fn finish_on(m: EndpointEval, event: EvalEvent) -> Stats {
    match m.step(event) {
        EvalStep::Continue(_) => panic!("evaluation went on"),
        EvalStep::Finished(outcome) => outcome,
    }
}

#[test]
fn successful_path_records_the_measurement() {
    let m = EndpointEval::new(b"sg467.nordvpn.com".to_vec(), DEFAULT_RETRIES);
    assert_eq!(m.action(), EvalAction::Switch);
    let m = step_on(m, EvalEvent::Switched);
    assert_eq!(m.action(), EvalAction::SettleThenResolveInternet);
    let m = step_on(m, EvalEvent::Resolved(Some(ip([103, 10, 5, 20]))));
    assert_eq!(m.action(), EvalAction::ResolveServer);
    let m = step_on(m, EvalEvent::Resolved(Some(ip([103, 10, 5, 24]))));
    assert_eq!(m.action(), EvalAction::Sample);
    let outcome = finish_on(m, EvalEvent::Sampled(Ok(sample())));
    assert_eq!(outcome.nord_server, b"sg467.nordvpn.com".to_vec());
    assert_eq!(outcome.server_ip.map(|a| a.octets), Some([103, 10, 5, 24]));
    assert_eq!(outcome.internet_ip.map(|a| a.octets), Some([103, 10, 5, 20]));
    assert_eq!(outcome.latency, 5_483);
    assert_eq!(outcome.download, 5_000_500);
    assert!(!outcome.no_pl_data);
    assert_eq!(outcome.game_score, 0);
    assert_eq!(outcome.usage_score, 0);
}

#[test]
fn address_mismatch_degrades() {
    let m = EndpointEval::new(b"sg467.nordvpn.com".to_vec(), DEFAULT_RETRIES);
    let m = step_on(m, EvalEvent::Switched);
    let m = step_on(m, EvalEvent::Resolved(Some(ip([103, 10, 5, 20]))));
    let outcome = finish_on(m, EvalEvent::Resolved(Some(ip([103, 10, 5, 27]))));
    assert_eq!(outcome.download, 0);
    assert_eq!(outcome.upload, 0);
    assert!(outcome.no_pl_data);
    // The addresses that were resolved stay in the record.
    assert_eq!(outcome.server_ip.map(|a| a.octets), Some([103, 10, 5, 27]));
    assert_eq!(outcome.internet_ip.map(|a| a.octets), Some([103, 10, 5, 20]));
}

#[test]
fn failed_measurement_degrades() {
    let m = EndpointEval::new(b"sg467.nordvpn.com".to_vec(), DEFAULT_RETRIES);
    let m = step_on(m, EvalEvent::Switched);
    let m = step_on(m, EvalEvent::Resolved(Some(ip([103, 10, 5, 20]))));
    let m = step_on(m, EvalEvent::Resolved(Some(ip([103, 10, 5, 24]))));
    let outcome = finish_on(
        m,
        EvalEvent::Sampled(Err(SampleError::MissingField(6))),
    );
    assert_eq!(outcome.download, 0);
    assert_eq!(outcome.upload, 0);
    assert!(outcome.no_pl_data);
}

#[test]
fn internet_discovery_budget_is_first_try_plus_retries() {
    let m = EndpointEval::new(b"sg467.nordvpn.com".to_vec(), 2);
    let mut m = step_on(m, EvalEvent::Switched);
    // Three attempts in all: the first and two retries.
    for _ in 0..2 {
        m = step_on(m, EvalEvent::Resolved(None));
        assert_eq!(m.action(), EvalAction::SettleThenResolveInternet);
    }
    let outcome = finish_on(m, EvalEvent::Resolved(None));
    assert!(outcome.no_pl_data);
    assert!(outcome.server_ip.is_none());
    assert!(outcome.internet_ip.is_none());
}

#[test]
fn server_resolution_gets_one_retry() {
    let m = EndpointEval::new(b"sg467.nordvpn.com".to_vec(), DEFAULT_RETRIES);
    let m = step_on(m, EvalEvent::Switched);
    let m = step_on(m, EvalEvent::Resolved(Some(ip([103, 10, 5, 20]))));
    let m = step_on(m, EvalEvent::Resolved(None));
    assert_eq!(m.action(), EvalAction::SettleThenResolveServer);
    let outcome = finish_on(m, EvalEvent::Resolved(None));
    assert!(outcome.no_pl_data);
    assert!(outcome.server_ip.is_none());
    assert_eq!(outcome.internet_ip.map(|a| a.octets), Some([103, 10, 5, 20]));
}

#[test]
fn empty_endpoint_list_is_fatal() {
    let endpoints: Vec<Vec<u8>> = Vec::new();
    assert!(matches!(
        Driver::new(endpoints, DEFAULT_RETRIES),
        Err(ConfigError::EmptyEndpointList)
    ));
}

#[test]
fn driver_walks_endpoints_in_order() {
    let endpoints = vec![b"one".to_vec(), b"two".to_vec()];
    let mut driver = Driver::new(endpoints, DEFAULT_RETRIES).unwrap();
    let m = driver.begin_endpoint().unwrap();
    assert_eq!(m.name, b"one".to_vec());
    driver.record(finish_after_switch(m));
    let m = driver.begin_endpoint().unwrap();
    assert_eq!(m.name, b"two".to_vec());
    driver.record(finish_after_switch(m));
    assert!(driver.begin_endpoint().is_none());
    assert_eq!(driver.into_outcomes().len(), 2);
}

fn finish_after_switch(m: EndpointEval) -> Stats {
    let m = step_on(m, EvalEvent::Switched);
    let m = step_on(m, EvalEvent::Resolved(Some(ip([1, 2, 3, 4]))));
    let m = step_on(m, EvalEvent::Resolved(Some(ip([1, 2, 3, 4]))));
    finish_on(m, EvalEvent::Sampled(Ok(sample())))
}

#[test]
fn cancellation_stops_before_the_next_endpoint() {
    // Three endpoints; the flag is seen after the second finished.
    let endpoints = vec![b"one".to_vec(), b"two".to_vec(), b"three".to_vec()];
    let mut driver = Driver::new(endpoints, DEFAULT_RETRIES).unwrap();
    for _ in 0..2 {
        let m = driver.begin_endpoint().unwrap();
        driver.record(finish_after_switch(m));
    }
    driver.cancel();
    assert!(driver.begin_endpoint().is_none());
    let outcomes = driver.into_outcomes();
    // Exactly the two finished evaluations are reported.
    assert_eq!(outcomes.len(), 2);
    assert_eq!(outcomes[0].nord_server, b"one".to_vec());
    assert_eq!(outcomes[1].nord_server, b"two".to_vec());
}
