//! Parsing of the speed-measurement program's tab-separated output.

use vstd::prelude::*;

use crate::milli::{spec_parse_milli, parse_milli, MAX_MILLI};

verus! {

pub const TAB: u8 = 0x09;

/// Fixed packet-loss stand-in, in thousandths, used when the measurement
/// reports no packet-loss figure.  It only keeps the scoring formula
/// defined; reports must show "N/A" instead of it.
pub const PACKET_LOSS_PLACEHOLDER: u64 = 300;

/// One successful speed measurement.  Latency and jitter are in
/// thousandths of a millisecond, packet loss in thousandths of a
/// percentage point, throughput in thousandths of the measurement
/// program's rate unit.
#[derive(Clone, Copy, Debug, PartialEq, Eq, Structural)]
pub struct SpeedSample {
    pub latency: u64,
    pub jitter: u64,
    pub packet_loss: u64,
    /// True when the measurement reported no packet-loss figure; then
    /// `packet_loss` holds the fixed stand-in.
    pub no_pl_data: bool,
    pub download: u64,
    pub upload: u64,
}

impl SpeedSample {
    /// Every parsed sample keeps its quantities below the fixed-point
    /// bound, so scoring arithmetic cannot overflow.
    pub open spec fn wf(self) -> bool {
        &&& self.latency < MAX_MILLI
        &&& self.jitter < MAX_MILLI
        &&& self.packet_loss < MAX_MILLI
        &&& self.download < MAX_MILLI
        &&& self.upload < MAX_MILLI
    }
}

/// Why a speed measurement produced no sample.
#[derive(Clone, Copy, Debug, PartialEq, Eq, Structural)]
pub enum SampleError {
    /// The output held no field at this position.
    MissingField(usize),
    /// The field at this position did not parse as a decimal.
    MalformedField(usize),
    /// The measurement program failed with this exit code.
    ExitCode(i32),
    /// The measurement program was terminated by a signal.
    SignalTerminated,
}

/// Split on every tab; a text without tabs is one field.
pub open spec fn split_tabs(s: Seq<u8>) -> Seq<Seq<u8>>
    decreases s.len(),
{
    if s.len() == 0 {
        seq![Seq::empty()]
    } else if s[0] == TAB {
        seq![Seq::empty()] + split_tabs(s.skip(1))
    } else {
        let rest = split_tabs(s.skip(1));
        seq![seq![s[0]] + rest[0]] + rest.skip(1)
    }
}

pub proof fn lemma_split_tabs_len(s: Seq<u8>)
    ensures
        split_tabs(s).len() >= 1,
    decreases s.len(),
{
    if s.len() > 0 {
        lemma_split_tabs_len(s.skip(1));
    }
}

/// The fields of the measurement output: tab-separated, with a trailing
/// separator terminating rather than opening a field.
pub open spec fn fields_of(s: Seq<u8>) -> Seq<Seq<u8>> {
    if s.len() == 0 {
        Seq::empty()
    } else if s.last() == TAB {
        split_tabs(s.drop_last())
    } else {
        split_tabs(s)
    }
}

/// Splitting starts at the first tab.
proof fn lemma_split_tabs_first(s: Seq<u8>, j: int)
    requires
        0 <= j < s.len(),
        s[j] == TAB,
        forall|k: int| 0 <= k < j ==> s[k] != TAB,
    ensures
        split_tabs(s) =~= seq![s.take(j)] + split_tabs(s.skip(j + 1)),
    decreases j,
{
    lemma_split_tabs_len(s.skip(1));
    if j == 0 {
        assert(s.take(0) =~= Seq::<u8>::empty());
        assert(s.skip(1) =~= s.skip(j + 1));
    } else {
        assert(s[0] != TAB);
        lemma_split_tabs_first(s.skip(1), j - 1);
        assert(s.skip(1).take(j - 1) =~= s.take(j).skip(1));
        assert(s.skip(1).skip(j) =~= s.skip(j + 1));
        let rest = split_tabs(s.skip(1));
        assert(rest[0] =~= s.take(j).skip(1));
        assert(seq![s[0]] + rest[0] =~= s.take(j));
        assert(rest.skip(1) =~= split_tabs(s.skip(j + 1)));
    }
}

/// A text without tabs is one single field.
proof fn lemma_split_tabs_none(s: Seq<u8>)
    requires
        forall|k: int| 0 <= k < s.len() ==> s[k] != TAB,
    ensures
        split_tabs(s) =~= seq![s],
    decreases s.len(),
{
    if s.len() == 0 {
        assert(s =~= Seq::<u8>::empty());
    } else {
        lemma_split_tabs_none(s.skip(1));
        let rest = split_tabs(s.skip(1));
        assert(seq![s[0]] + rest[0] =~= s);
    }
}

/// The views of a list of byte vectors.
pub open spec fn views(r: Seq<Vec<u8>>) -> Seq<Seq<u8>> {
    r.map_values(|v: Vec<u8>| v@)
}

/// Splits the measurement output into its tab-separated fields.
#[verifier::loop_isolation(false)]
pub fn split_fields(s: &[u8]) -> (r: Vec<Vec<u8>>)
    ensures
        views(r@) == fields_of(s@),
{
    let mut r: Vec<Vec<u8>> = Vec::new();
    let n = s.len();
    if n == 0 {
        proof {
            assert(views(r@) =~= fields_of(s@));
        }
        return r;
    }
    // A trailing tab terminates the last field instead of opening an empty
    // one.
    let end = if s[n - 1] == TAB {
        n - 1
    } else {
        n
    };
    let ghost body = s@.take(end as int);
    proof {
        assert(fields_of(s@) == split_tabs(body)) by {
            if s@.last() == TAB {
                assert(s@.drop_last() =~= body);
            } else {
                assert(s@ =~= body);
            }
        }
    }
    let mut p: usize = 0;
    proof {
        assert(body.skip(0) =~= body);
        assert(views(r@) + split_tabs(body) =~= split_tabs(body));
    }
    loop
        invariant
            p <= end <= s@.len(),
            body == s@.take(end as int),
            split_tabs(body) =~= views(r@) + split_tabs(body.skip(p as int)),
        decreases end - p,
    {
        // Find the next tab at or after p.
        let mut q = p;
        while q < end && s[q] != TAB
            invariant
                p <= q <= end <= s@.len(),
                forall|k: int| p <= k < q ==> s@[k] != TAB,
            decreases end - q,
        {
            q = q + 1;
        }
        let mut seg: Vec<u8> = Vec::new();
        let mut k = p;
        while k < q
            invariant
                p <= k <= q <= end <= s@.len(),
                seg@ =~= s@.subrange(p as int, k as int),
            decreases q - k,
        {
            seg.push(s[k]);
            proof {
                assert(seg@ =~= s@.subrange(p as int, k + 1));
            }
            k = k + 1;
        }
        if q < end {
            proof {
                let tail = body.skip(p as int);
                assert(tail[q - p] == TAB);
                assert(forall|i: int| 0 <= i < q - p ==> tail[i] != TAB) by {
                    assert(forall|i: int| 0 <= i < q - p ==> tail[i] == s@[i + p]);
                }
                lemma_split_tabs_first(tail, q - p);
                assert(tail.take(q - p) =~= s@.subrange(p as int, q as int));
                assert(tail.skip(q - p + 1) =~= body.skip(q + 1));
                assert(views(r@.push(seg)) =~= views(r@) + seq![seg@]);
                assert(split_tabs(body) =~= views(r@.push(seg)) + split_tabs(body.skip(q + 1)));
            }
            r.push(seg);
            p = q + 1;
        } else {
            proof {
                let tail = body.skip(p as int);
                assert(forall|i: int| 0 <= i < tail.len() ==> tail[i] != TAB) by {
                    assert(forall|i: int| 0 <= i < tail.len() ==> tail[i] == s@[i + p]);
                }
                lemma_split_tabs_none(tail);
                assert(tail =~= s@.subrange(p as int, end as int));
                assert(views(r@.push(seg)) =~= views(r@) + seq![seg@]);
                assert(split_tabs(body) =~= views(r@.push(seg)));
            }
            r.push(seg);
            proof {
                assert(views(r@) =~= fields_of(s@));
            }
            return r;
        }
    }
}

/// What the parser makes of the measurement output, field by field:
/// positions 2, 3, 5 and 6 must hold decimals (latency, jitter, download,
/// upload); position 4 (packet loss) falls back to the fixed stand-in when
/// it holds no decimal; positions 0 and 1 are ignored.
pub open spec fn spec_parse_sample(line: Seq<u8>) -> Result<SpeedSample, SampleError> {
    let fields = fields_of(line);
    if fields.len() < 7 {
        Err(SampleError::MissingField(if fields.len() <= 2 {
            2
        } else {
            fields.len() as usize
        }))
    } else {
        match spec_parse_milli(fields[2]) {
            None => Err(SampleError::MalformedField(2)),
            Some(latency) => match spec_parse_milli(fields[3]) {
                None => Err(SampleError::MalformedField(3)),
                Some(jitter) => {
                    let pl = spec_parse_milli(fields[4]);
                    match spec_parse_milli(fields[5]) {
                        None => Err(SampleError::MalformedField(5)),
                        Some(download) => match spec_parse_milli(fields[6]) {
                            None => Err(SampleError::MalformedField(6)),
                            Some(upload) => Ok(
                                SpeedSample {
                                    latency,
                                    jitter,
                                    packet_loss: if pl is Some {
                                        pl->0
                                    } else {
                                        PACKET_LOSS_PLACEHOLDER
                                    },
                                    no_pl_data: pl is None,
                                    download,
                                    upload,
                                },
                            ),
                        },
                    }
                },
            },
        }
    }
}

/// Parses one line of measurement output into a speed sample.
pub fn parse_sample(line: &[u8]) -> (r: Result<SpeedSample, SampleError>)
    ensures
        r == spec_parse_sample(line@),
        r matches Ok(s) ==> s.wf(),
{
    let fields = split_fields(line);
    let len = fields.len();
    proof {
        assert(fields_of(line@).len() == fields@.len());
    }
    if len < 7 {
        return Err(SampleError::MissingField(if len <= 2 {
            2
        } else {
            len
        }));
    }
    proof {
        assert(forall|i: int|
            0 <= i < fields@.len() ==> fields_of(line@)[i] == #[trigger] fields@[i]@);
    }
    let latency = match parse_milli(fields[2].as_slice()) {
        Some(v) => v,
        None => {
            return Err(SampleError::MalformedField(2));
        },
    };
    let jitter = match parse_milli(fields[3].as_slice()) {
        Some(v) => v,
        None => {
            return Err(SampleError::MalformedField(3));
        },
    };
    let (packet_loss, no_pl_data) = match parse_milli(fields[4].as_slice()) {
        Some(v) => (v, false),
        None => (PACKET_LOSS_PLACEHOLDER, true),
    };
    let download = match parse_milli(fields[5].as_slice()) {
        Some(v) => v,
        None => {
            return Err(SampleError::MalformedField(5));
        },
    };
    let upload = match parse_milli(fields[6].as_slice()) {
        Some(v) => v,
        None => {
            return Err(SampleError::MalformedField(6));
        },
    };
    Ok(SpeedSample { latency, jitter, packet_loss, no_pl_data, download, upload })
}

/// How one run of the measurement program ends: its output parsed when it
/// succeeded, its exit code or abnormal end reported when it did not.
pub open spec fn spec_speedtest_result(exit_ok: bool, exit_code: Option<i32>, stdout: Seq<u8>) -> Result<
    SpeedSample,
    SampleError,
> {
    if exit_ok {
        spec_parse_sample(stdout)
    } else {
        match exit_code {
            Some(c) => Err(SampleError::ExitCode(c)),
            None => Err(SampleError::SignalTerminated),
        }
    }
}

/// Turns the exit state and output of one measurement run into a sample or
/// a failure.
pub fn speedtest_result(exit_ok: bool, exit_code: Option<i32>, stdout: &[u8]) -> (r: Result<
    SpeedSample,
    SampleError,
>)
    ensures
        r == spec_speedtest_result(exit_ok, exit_code, stdout@),
        r matches Ok(s) ==> s.wf(),
{
    if exit_ok {
        parse_sample(stdout)
    } else {
        match exit_code {
            Some(c) => Err(SampleError::ExitCode(c)),
            None => Err(SampleError::SignalTerminated),
        }
    }
}

/// When every required field parses but the packet-loss field does not,
/// the sample still comes back, flagged, with the stand-in packet loss and
/// the parsed values everywhere else.
pub proof fn lemma_packet_loss_defaulted(line: Seq<u8>)
    requires
        fields_of(line).len() >= 7,
        spec_parse_milli(fields_of(line)[2]) is Some,
        spec_parse_milli(fields_of(line)[3]) is Some,
        spec_parse_milli(fields_of(line)[4]) is None,
        spec_parse_milli(fields_of(line)[5]) is Some,
        spec_parse_milli(fields_of(line)[6]) is Some,
    ensures
        spec_parse_sample(line) matches Ok(s) && {
            &&& s.no_pl_data == true
            &&& s.packet_loss == PACKET_LOSS_PLACEHOLDER
            &&& s.latency == spec_parse_milli(fields_of(line)[2])->0
            &&& s.jitter == spec_parse_milli(fields_of(line)[3])->0
            &&& s.download == spec_parse_milli(fields_of(line)[5])->0
            &&& s.upload == spec_parse_milli(fields_of(line)[6])->0
        },
{
}

/// Output without an upload field never yields a sample: it fails with the
/// missing position, so nothing of that shape ever reaches the scorer.
pub proof fn lemma_missing_upload_fails(line: Seq<u8>)
    requires
        fields_of(line).len() == 6,
    ensures
        spec_parse_sample(line) == Err::<SpeedSample, SampleError>(SampleError::MissingField(6)),
{
}

} // verus!
