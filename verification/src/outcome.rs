//! Per-endpoint outcome records.
//!
//! Every endpoint that an evaluation attempts ends in exactly one record,
//! whether the attempt succeeded or degraded: unreachable endpoints stay
//! visible in the final report instead of being dropped.

use vstd::prelude::*;

use crate::addr::IP;
use crate::milli::MAX_MILLI;
use crate::sample::SpeedSample;

verus! {

/// The record of one endpoint's evaluation.  Measured quantities are in
/// thousandths (see the sample module); the two scores are filled by the
/// scorer, in thousandths of a point, and start at zero.
#[derive(Clone, Debug)]
pub struct Stats {
    /// The endpoint's host name, as read from the input list.
    pub nord_server: Vec<u8>,
    /// The endpoint's resolved address; absent when resolution failed.
    pub server_ip: Option<IP>,
    /// The machine's internet-facing address; absent when discovery failed.
    pub internet_ip: Option<IP>,
    pub latency: u64,
    pub jitter: u64,
    pub packet_loss: u64,
    /// True when no packet-loss figure was measured; reports must then show
    /// "N/A" in place of the number.
    pub no_pl_data: bool,
    pub download: u64,
    pub upload: u64,
    pub game_score: i64,
    pub usage_score: i64,
}

impl Stats {
    /// All measured quantities stay below the fixed-point bound, so the
    /// scoring arithmetic cannot overflow.
    pub open spec fn wf(self) -> bool {
        &&& self.latency < MAX_MILLI
        &&& self.jitter < MAX_MILLI
        &&& self.packet_loss < MAX_MILLI
        &&& self.download < MAX_MILLI
        &&& self.upload < MAX_MILLI
    }

    /// The shape of a record whose endpoint failed somewhere after the
    /// switch: nothing was measured.
    pub open spec fn is_degraded(self) -> bool {
        &&& self.download == 0
        &&& self.upload == 0
        &&& self.no_pl_data == true
    }

    /// Builds the record of a failed evaluation: all quantities zero, the
    /// packet-loss flag set, whatever addresses were resolved kept.
    pub fn degraded(nord_server: Vec<u8>, server_ip: Option<IP>, internet_ip: Option<IP>) -> (r:
        Stats)
        ensures
            r == (Stats {
                nord_server,
                server_ip,
                internet_ip,
                latency: 0,
                jitter: 0,
                packet_loss: 0,
                no_pl_data: true,
                download: 0,
                upload: 0,
                game_score: 0,
                usage_score: 0,
            }),
            r.wf(),
            r.is_degraded(),
    {
        Stats {
            nord_server,
            server_ip,
            internet_ip,
            latency: 0,
            jitter: 0,
            packet_loss: 0,
            no_pl_data: true,
            download: 0,
            upload: 0,
            game_score: 0,
            usage_score: 0,
        }
    }

    /// Builds the record of a successful evaluation from its measurement;
    /// the scores stay zero until the scorer runs.
    pub fn from_sample(nord_server: Vec<u8>, server_ip: IP, internet_ip: IP, sample: SpeedSample) -> (r:
        Stats)
        requires
            sample.wf(),
        ensures
            r == (Stats {
                nord_server,
                server_ip: Some(server_ip),
                internet_ip: Some(internet_ip),
                latency: sample.latency,
                jitter: sample.jitter,
                packet_loss: sample.packet_loss,
                no_pl_data: sample.no_pl_data,
                download: sample.download,
                upload: sample.upload,
                game_score: 0,
                usage_score: 0,
            }),
            r.wf(),
    {
        Stats {
            nord_server,
            server_ip: Some(server_ip),
            internet_ip: Some(internet_ip),
            latency: sample.latency,
            jitter: sample.jitter,
            packet_loss: sample.packet_loss,
            no_pl_data: sample.no_pl_data,
            download: sample.download,
            upload: sample.upload,
            game_score: 0,
            usage_score: 0,
        }
    }
}

} // verus!
