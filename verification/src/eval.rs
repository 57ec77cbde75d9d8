//! The per-endpoint evaluation machine and the run driver.
//!
//! Evaluating one endpoint is a fixed sequence of outside steps — switch,
//! settle, resolve, validate, measure — each of which can fail.  The
//! decisions live here as a pure state machine: the caller performs the
//! action the machine asks for, feeds the answer back in, and receives in
//! the end exactly one outcome record, degraded when anything after the
//! switch failed.  The driver walks the endpoint list, polls a cancellation
//! flag between endpoints, and accumulates the records.

use vstd::prelude::*;

use crate::addr::{spec_ip_match, verify_ip_match, IP};
use crate::outcome::Stats;
use crate::sample::{SampleError, SpeedSample};

verus! {

/// Retries granted to internet-address discovery after a switch, beyond
/// the first attempt, one settle interval apart.
pub const DEFAULT_RETRIES: u8 = 15;

/// What the caller must do next for the evaluation to advance.
#[derive(Clone, Copy, Debug, PartialEq, Eq, Structural)]
pub enum EvalAction {
    /// Run the connection-switch command for the endpoint.
    Switch,
    /// Wait one settle interval, then discover the internet-facing address.
    SettleThenResolveInternet,
    /// Resolve the endpoint's own address.
    ResolveServer,
    /// Wait one settle interval, then resolve the endpoint's own address.
    SettleThenResolveServer,
    /// Run the speed measurement.
    Sample,
}

/// What the outside world answered to the previous action.
#[derive(Clone, Copy, Debug)]
pub enum EvalEvent {
    /// The switch command finished.  Its exit state does not matter: the
    /// address check is the real gate.
    Switched,
    /// An address resolution came back, or failed.
    Resolved(Option<IP>),
    /// The speed measurement came back, or failed.
    Sampled(Result<SpeedSample, SampleError>),
}

/// Where one endpoint's evaluation stands.
#[derive(Clone, Copy, Debug)]
pub enum EvalState {
    /// About to run the switch command.
    Switching,
    /// Discovering the internet-facing address, with this many attempts
    /// still allowed.
    ResolvingInternet { attempts_left: u16 },
    /// Resolving the endpoint's own address, with one retry after a first
    /// failure.
    ResolvingServer { internet: IP, retried: bool },
    /// Addresses matched: about to measure.
    Sampling { internet: IP, server: IP },
}

/// The evaluation machine for one endpoint.
#[derive(Debug)]
pub struct EndpointEval {
    /// The endpoint's host name; it ends up in the outcome record.
    pub name: Vec<u8>,
    /// Retries granted to internet-address discovery beyond the first
    /// attempt.
    pub retries: u8,
    pub state: EvalState,
}

/// One advance of the machine: either it continues and asks for the next
/// action, or it is finished and hands over the endpoint's one record.
#[derive(Debug)]
pub enum EvalStep {
    Continue(EndpointEval),
    Finished(Stats),
}

/// The record of a degraded outcome, as the machine writes it.
pub open spec fn spec_degraded(name: Vec<u8>, server_ip: Option<IP>, internet_ip: Option<IP>) -> Stats {
    Stats {
        nord_server: name,
        server_ip,
        internet_ip,
        latency: 0,
        jitter: 0,
        packet_loss: 0,
        no_pl_data: true,
        download: 0,
        upload: 0,
        game_score: 0,
        usage_score: 0,
    }
}

/// The record of a successful outcome, holding the measurement.
pub open spec fn spec_measured(name: Vec<u8>, server: IP, internet: IP, sample: SpeedSample) -> Stats {
    Stats {
        nord_server: name,
        server_ip: Some(server),
        internet_ip: Some(internet),
        latency: sample.latency,
        jitter: sample.jitter,
        packet_loss: sample.packet_loss,
        no_pl_data: sample.no_pl_data,
        download: sample.download,
        upload: sample.upload,
        game_score: 0,
        usage_score: 0,
    }
}

/// Which answers a state can take.
pub open spec fn event_fits(state: EvalState, event: EvalEvent) -> bool {
    match state {
        EvalState::Switching => event is Switched,
        EvalState::ResolvingInternet { .. } => event is Resolved,
        EvalState::ResolvingServer { .. } => event is Resolved,
        EvalState::Sampling { .. } => matches!(event, EvalEvent::Sampled(_)),
    }
}

/// The action a state asks for.
pub open spec fn spec_action(state: EvalState) -> EvalAction {
    match state {
        EvalState::Switching => EvalAction::Switch,
        EvalState::ResolvingInternet { .. } => EvalAction::SettleThenResolveInternet,
        EvalState::ResolvingServer { retried, .. } => if retried {
            EvalAction::SettleThenResolveServer
        } else {
            EvalAction::ResolveServer
        },
        EvalState::Sampling { .. } => EvalAction::Sample,
    }
}

/// The transition relation of the machine, one state and one answer at a
/// time:
/// - a finished switch starts internet-address discovery with the full
///   attempt budget;
/// - a failed discovery retries while attempts remain, else the endpoint
///   degrades with no addresses;
/// - a discovered internet address starts resolving the endpoint's own
///   address, which gets one retry, else the endpoint degrades keeping the
///   internet address;
/// - a resolved endpoint address is validated octet by octet: on a match
///   the measurement starts, on a mismatch the endpoint degrades keeping
///   both addresses;
/// - the measurement's success yields the full record, its failure a
///   degraded one.
pub open spec fn spec_step(m: EndpointEval, event: EvalEvent) -> EvalStep
    recommends
        event_fits(m.state, event),
{
    match (m.state, event) {
        (EvalState::Switching, EvalEvent::Switched) => EvalStep::Continue(
            EndpointEval {
                state: EvalState::ResolvingInternet {
                    attempts_left: (m.retries as u16 + 1) as u16,
                },
                ..m
            },
        ),
        (EvalState::ResolvingInternet { .. }, EvalEvent::Resolved(Some(ip))) => EvalStep::Continue(
            EndpointEval { state: EvalState::ResolvingServer { internet: ip, retried: false }, ..m },
        ),
        (EvalState::ResolvingInternet { attempts_left }, EvalEvent::Resolved(None)) => if attempts_left
            > 1 {
            EvalStep::Continue(
                EndpointEval {
                    state: EvalState::ResolvingInternet { attempts_left: (attempts_left - 1) as u16 },
                    ..m
                },
            )
        } else {
            EvalStep::Finished(spec_degraded(m.name, None, None))
        },
        (EvalState::ResolvingServer { internet, .. }, EvalEvent::Resolved(Some(server))) => if spec_ip_match(
            internet,
            server,
        ) {
            EvalStep::Continue(EndpointEval { state: EvalState::Sampling { internet, server }, ..m })
        } else {
            EvalStep::Finished(spec_degraded(m.name, Some(server), Some(internet)))
        },
        (EvalState::ResolvingServer { internet, retried }, EvalEvent::Resolved(None)) => if !retried {
            EvalStep::Continue(
                EndpointEval { state: EvalState::ResolvingServer { internet, retried: true }, ..m },
            )
        } else {
            EvalStep::Finished(spec_degraded(m.name, None, Some(internet)))
        },
        (EvalState::Sampling { internet, server }, EvalEvent::Sampled(Ok(sample))) => EvalStep::Finished(
            spec_measured(m.name, server, internet, sample),
        ),
        (EvalState::Sampling { internet, server }, EvalEvent::Sampled(Err(_))) => EvalStep::Finished(
            spec_degraded(m.name, Some(server), Some(internet)),
        ),
        _ => EvalStep::Finished(spec_degraded(m.name, None, None)),
    }
}

impl EndpointEval {
    /// Starts the evaluation of one endpoint: the switch comes first.
    pub fn new(name: Vec<u8>, retries: u8) -> (r: EndpointEval)
        ensures
            r == (EndpointEval { name, retries, state: EvalState::Switching }),
    {
        EndpointEval { name, retries, state: EvalState::Switching }
    }

    /// The action the machine is waiting on.
    pub fn action(&self) -> (a: EvalAction)
        ensures
            a == spec_action(self.state),
    {
        match self.state {
            EvalState::Switching => EvalAction::Switch,
            EvalState::ResolvingInternet { .. } => EvalAction::SettleThenResolveInternet,
            EvalState::ResolvingServer { retried, .. } => if retried {
                EvalAction::SettleThenResolveServer
            } else {
                EvalAction::ResolveServer
            },
            EvalState::Sampling { .. } => EvalAction::Sample,
        }
    }

    /// Advances the machine by one answer from the outside world.
    pub fn step(self, event: EvalEvent) -> (r: EvalStep)
        requires
            event_fits(self.state, event),
            event matches EvalEvent::Sampled(s) ==> (s matches Ok(sample) ==> sample.wf()),
        ensures
            r == spec_step(self, event),
            r matches EvalStep::Finished(o) ==> o.wf(),
    {
        match (self.state, event) {
            (EvalState::Switching, EvalEvent::Switched) => {
                let attempts: u16 = self.retries as u16 + 1;
                EvalStep::Continue(
                    EndpointEval {
                        state: EvalState::ResolvingInternet { attempts_left: attempts },
                        ..self
                    },
                )
            },
            (EvalState::ResolvingInternet { .. }, EvalEvent::Resolved(Some(ip))) => EvalStep::Continue(
                EndpointEval {
                    state: EvalState::ResolvingServer { internet: ip, retried: false },
                    ..self
                },
            ),
            (EvalState::ResolvingInternet { attempts_left }, EvalEvent::Resolved(None)) => {
                if attempts_left > 1 {
                    EvalStep::Continue(
                        EndpointEval {
                            state: EvalState::ResolvingInternet {
                                attempts_left: attempts_left - 1,
                            },
                            ..self
                        },
                    )
                } else {
                    EvalStep::Finished(Stats::degraded(self.name, None, None))
                }
            },
            (EvalState::ResolvingServer { internet, .. }, EvalEvent::Resolved(Some(server))) => {
                if verify_ip_match(&internet, &server) {
                    EvalStep::Continue(
                        EndpointEval { state: EvalState::Sampling { internet, server }, ..self },
                    )
                } else {
                    EvalStep::Finished(Stats::degraded(self.name, Some(server), Some(internet)))
                }
            },
            (EvalState::ResolvingServer { internet, retried }, EvalEvent::Resolved(None)) => {
                if !retried {
                    EvalStep::Continue(
                        EndpointEval {
                            state: EvalState::ResolvingServer { internet, retried: true },
                            ..self
                        },
                    )
                } else {
                    EvalStep::Finished(Stats::degraded(self.name, None, Some(internet)))
                }
            },
            (EvalState::Sampling { internet, server }, EvalEvent::Sampled(Ok(sample))) => {
                EvalStep::Finished(Stats::from_sample(self.name, server, internet, sample))
            },
            (EvalState::Sampling { internet, server }, EvalEvent::Sampled(Err(_))) => {
                EvalStep::Finished(Stats::degraded(self.name, Some(server), Some(internet)))
            },
            _ => {
                proof {
                    assert(false);
                }
                EvalStep::Finished(Stats::degraded(self.name, None, None))
            },
        }
    }
}

/// Why a run cannot even start.
#[derive(Clone, Copy, Debug, PartialEq, Eq, Structural)]
pub enum ConfigError {
    /// The endpoint list is empty: a fatal configuration error, nothing is
    /// evaluated and nothing is written.
    EmptyEndpointList,
}

/// The run driver: endpoints are evaluated strictly in list order, one at
/// a time, each ending in exactly one outcome record.  A cancellation is
/// honoured between endpoints, never within one: the endpoint being
/// evaluated always finishes and is recorded.
#[derive(Debug)]
pub struct Driver {
    /// Endpoints not yet begun, in list order.
    pub remaining: Vec<Vec<u8>>,
    /// One record per endpoint begun, in the order they were begun.
    pub outcomes: Vec<Stats>,
    /// Set once the operator interrupted the run.
    pub cancelled: bool,
    /// Retry budget handed to each endpoint's machine.
    pub retries: u8,
}

/// Whether and what the driver evaluates next: nothing once cancelled or
/// out of endpoints, else the first endpoint not yet begun.
pub open spec fn spec_next_endpoint(d: Driver) -> Option<Seq<u8>> {
    if d.cancelled || d.remaining@.len() == 0 {
        None
    } else {
        Some(d.remaining@[0]@)
    }
}

impl Driver {
    /// Starts a run over the endpoint list; an empty list is a fatal
    /// configuration error.
    pub fn new(endpoints: Vec<Vec<u8>>, retries: u8) -> (r: Result<Driver, ConfigError>)
        ensures
            endpoints@.len() == 0 ==> r == Err::<Driver, ConfigError>(ConfigError::EmptyEndpointList),
            endpoints@.len() > 0 ==> (r matches Ok(d) && {
                &&& d.remaining == endpoints
                &&& d.outcomes@ == Seq::<Stats>::empty()
                &&& !d.cancelled
                &&& d.retries == retries
            }),
    {
        if endpoints.len() == 0 {
            Err(ConfigError::EmptyEndpointList)
        } else {
            let outcomes: Vec<Stats> = Vec::new();
            Ok(Driver { remaining: endpoints, outcomes, cancelled: false, retries })
        }
    }

    /// Notes the operator's interrupt.  The endpoint under evaluation, if
    /// any, still finishes; no further endpoint starts.
    pub fn cancel(&mut self)
        ensures
            *final(self) == (Driver { cancelled: true, ..*old(self) }),
    {
        self.cancelled = true;
    }

    /// Takes the next endpoint up for evaluation, unless the run is
    /// cancelled or done, and hands back its evaluation machine.
    pub fn begin_endpoint(&mut self) -> (r: Option<EndpointEval>)
        ensures
            match r {
                Some(m) => {
                    &&& spec_next_endpoint(*old(self)) == Some(m.name@)
                    &&& m == (EndpointEval {
                        name: old(self).remaining@[0],
                        retries: old(self).retries,
                        state: EvalState::Switching,
                    })
                    &&& *final(self) == (Driver {
                        remaining: final(self).remaining,
                        ..*old(self)
                    })
                    &&& final(self).remaining@ == old(self).remaining@.skip(1)
                },
                None => {
                    &&& spec_next_endpoint(*old(self)) is None
                    &&& *final(self) == *old(self)
                },
            },
    {
        if self.cancelled || self.remaining.len() == 0 {
            return None;
        }
        let name = self.remaining.remove(0);
        proof {
            assert(self.remaining@ =~= old(self).remaining@.skip(1));
        }
        Some(EndpointEval::new(name, self.retries))
    }

    /// Adds the one record of a finished evaluation to the run's set.
    pub fn record(&mut self, outcome: Stats)
        ensures
            *final(self) == (Driver { outcomes: final(self).outcomes, ..*old(self) }),
            final(self).outcomes@ == old(self).outcomes@.push(outcome),
    {
        self.outcomes.push(outcome);
    }

    /// Hands the collected records over for scoring.
    pub fn into_outcomes(self) -> (r: Vec<Stats>)
        ensures
            r == self.outcomes,
    {
        self.outcomes
    }
}

/// A cancellation seen after `k` endpoints have been evaluated stops the
/// run there: no further evaluation begins, and the scorer and report get
/// exactly the `k` records already collected, one per endpoint begun.
pub proof fn lemma_cancellation_stops_run(
    d: Driver,
    game_wt: crate::score::Weight,
    usage_wt: crate::score::Weight,
)
    requires
        d.cancelled,
    ensures
        spec_next_endpoint(d) is None,
        crate::score::spec_tabulate(d.outcomes@, game_wt, usage_wt) matches Ok(o) ==> o.len()
            == d.outcomes@.len(),
{
}

/// Every evaluation that does not end in a successful measurement ends in
/// a degraded record: nothing measured, packet loss flagged as absent.
/// The endpoint still appears, exactly once, in the run's record set and
/// report.
pub proof fn lemma_failure_ends_degraded(m: EndpointEval, event: EvalEvent)
    requires
        event_fits(m.state, event),
        !(event matches EvalEvent::Sampled(Ok(_))),
    ensures
        spec_step(m, event) matches EvalStep::Finished(o) ==> o.is_degraded(),
{
}

} // verus!
