//! Weighted composite scoring and ranking of outcome records.
//!
//! Each record gets two scores, one per weight profile, from the formula
//!
//! ```text
//! score = (1 - latency/250) * w.latency
//!       + (1 - jitter/5)    * w.jitter
//!       + (1 - packetLoss/3)* w.packet_loss
//!       + (download/maxDownload) * w.download
//!       + (upload/maxUpload)     * w.upload
//! ```
//!
//! evaluated exactly in thousandths of a point, each division rounding
//! toward zero at that precision.  The maxima are global over the whole
//! record set, so scores are comparable only after every record is in.

use vstd::prelude::*;

use crate::milli::MAX_MILLI;
use crate::outcome::Stats;

verus! {

/// Upper bound on one weight coefficient.
pub const MAX_WEIGHT: u64 = 1000;

/// The five coefficients of one scoring profile.
#[derive(Clone, Copy, Debug, PartialEq, Eq, Structural)]
pub struct Weight {
    pub latency: u64,
    pub jitter: u64,
    pub packet_loss: u64,
    pub download: u64,
    pub upload: u64,
}

impl Weight {
    pub open spec fn wf(self) -> bool {
        &&& self.latency <= MAX_WEIGHT
        &&& self.jitter <= MAX_WEIGHT
        &&& self.packet_loss <= MAX_WEIGHT
        &&& self.download <= MAX_WEIGHT
        &&& self.upload <= MAX_WEIGHT
    }

    /// The gaming profile: latency and jitter dominate.
    pub fn game() -> (r: Weight)
        ensures
            r == (Weight { latency: 50, jitter: 15, packet_loss: 25, download: 5, upload: 5 }),
            r.wf(),
    {
        Weight { latency: 50, jitter: 15, packet_loss: 25, download: 5, upload: 5 }
    }

    /// The general-usage profile: throughput dominates.
    pub fn usage() -> (r: Weight)
        ensures
            r == (Weight { latency: 10, jitter: 10, packet_loss: 5, download: 50, upload: 25 }),
            r.wf(),
    {
        Weight { latency: 10, jitter: 10, packet_loss: 5, download: 50, upload: 25 }
    }
}

/// Why the scorer refused a record set.
#[derive(Clone, Copy, Debug, PartialEq, Eq, Structural)]
pub enum ScoreError {
    /// A global throughput maximum is zero: every score would be
    /// meaningless, so nothing is scored and nothing is written.
    NoThroughputSignal,
}

/// The largest download seen in the set (zero for an empty set).
pub open spec fn max_download(s: Seq<Stats>) -> nat
    decreases s.len(),
{
    if s.len() == 0 {
        0
    } else {
        let m = max_download(s.drop_last());
        if s.last().download as nat > m {
            s.last().download as nat
        } else {
            m
        }
    }
}

/// The largest upload seen in the set (zero for an empty set).
pub open spec fn max_upload(s: Seq<Stats>) -> nat
    decreases s.len(),
{
    if s.len() == 0 {
        0
    } else {
        let m = max_upload(s.drop_last());
        if s.last().upload as nat > m {
            s.last().upload as nat
        } else {
            m
        }
    }
}

pub proof fn lemma_max_download_ge(s: Seq<Stats>, i: int)
    requires
        0 <= i < s.len(),
    ensures
        s[i].download as nat <= max_download(s),
    decreases s.len(),
{
    if i < s.len() - 1 {
        lemma_max_download_ge(s.drop_last(), i);
    }
}

pub proof fn lemma_max_upload_ge(s: Seq<Stats>, i: int)
    requires
        0 <= i < s.len(),
    ensures
        s[i].upload as nat <= max_upload(s),
    decreases s.len(),
{
    if i < s.len() - 1 {
        lemma_max_upload_ge(s.drop_last(), i);
    }
}

/// The composite score of one record, in thousandths of a point.  Each
/// division rounds toward zero at thousandth precision.
pub open spec fn spec_score(s: Stats, w: Weight, max_dl: nat, max_ul: nat) -> int
    recommends
        max_dl > 0,
        max_ul > 0,
{
    (1000 - s.latency / 250) * w.latency + (1000 - s.jitter / 5) * w.jitter + (1000
        - s.packet_loss / 3) * w.packet_loss + (s.download * 1000 / (max_dl as int)) * w.download + (
    s.upload * 1000 / (max_ul as int)) * w.upload
}

/// A penalty term `(1000 - pen) * w` stays within fixed bounds.
proof fn lemma_term_bounds(pen: int, w: int)
    requires
        0 <= pen <= 400_000_000_000_000,
        0 <= w <= 1000,
    ensures
        -400_000_000_000_000_000 <= (1000 - pen) * w <= 1_000_000,
{
    assert(-400_000_000_000_000_000 <= (1000 - pen) * w <= 1_000_000) by (nonlinear_arith)
        requires
            0 <= pen <= 400_000_000_000_000,
            0 <= w <= 1000,
    ;
}

/// A throughput term `(v * 1000 / m) * w` stays within fixed bounds when
/// `v` does not exceed the maximum `m`.
proof fn lemma_ratio_bounds(v: int, m: int, w: int)
    requires
        0 <= v <= m,
        0 < m,
        0 <= w <= 1000,
    ensures
        0 <= (v * 1000 / m) * w <= 1_000_000,
        0 <= v * 1000 / m <= 1000,
{
    assert(0 <= v * 1000 / m <= 1000) by (nonlinear_arith)
        requires
            0 <= v <= m && 0 < m,
    ;
    assert(0 <= (v * 1000 / m) * w <= 1_000_000) by (nonlinear_arith)
        requires
            0 <= v * 1000 / m <= 1000 && 0 <= w <= 1000,
    ;
}

/// Computes one record's score against one profile.
pub fn score_of(s: &Stats, w: &Weight, max_dl: u64, max_ul: u64) -> (r: i64)
    requires
        s.wf(),
        w.wf(),
        max_dl > 0,
        max_ul > 0,
        s.download <= max_dl,
        s.upload <= max_ul,
    ensures
        r as int == spec_score(*s, *w, max_dl as nat, max_ul as nat),
{
    let lat_pen = s.latency / 250;
    let jit_pen = s.jitter / 5;
    let pl_pen = s.packet_loss / 3;
    proof {
        lemma_term_bounds(lat_pen as int, w.latency as int);
        lemma_term_bounds(jit_pen as int, w.jitter as int);
        lemma_term_bounds(pl_pen as int, w.packet_loss as int);
        lemma_ratio_bounds(s.download as int, max_dl as int, w.download as int);
        lemma_ratio_bounds(s.upload as int, max_ul as int, w.upload as int);
    }
    let t1: i64 = (1000 - lat_pen as i64) * (w.latency as i64);
    let t2: i64 = (1000 - jit_pen as i64) * (w.jitter as i64);
    let t3: i64 = (1000 - pl_pen as i64) * (w.packet_loss as i64);
    let t4: i64 = ((s.download * 1000 / max_dl) * w.download) as i64;
    let t5: i64 = ((s.upload * 1000 / max_ul) * w.upload) as i64;
    t1 + t2 + t3 + t4 + t5
}

/// One record as the scorer leaves it: scored against both profiles when
/// it measured any download, untouched otherwise.
pub open spec fn spec_scored(s: Stats, game_wt: Weight, usage_wt: Weight, max_dl: nat, max_ul: nat) -> Stats {
    if s.download > 0 {
        Stats {
            game_score: spec_score(s, game_wt, max_dl, max_ul) as i64,
            usage_score: spec_score(s, usage_wt, max_dl, max_ul) as i64,
            ..s
        }
    } else {
        s
    }
}

/// What the scorer makes of a record set: the same records with both score
/// fields filled, unless a global throughput maximum is zero.
pub open spec fn spec_tabulate(s: Seq<Stats>, game_wt: Weight, usage_wt: Weight) -> Result<
    Seq<Stats>,
    ScoreError,
> {
    if max_download(s) == 0 || max_upload(s) == 0 {
        Err(ScoreError::NoThroughputSignal)
    } else {
        Ok(
            s.map_values(
                |r: Stats| spec_scored(r, game_wt, usage_wt, max_download(s), max_upload(s)),
            ),
        )
    }
}

/// Scores every record of the set against both profiles, normalizing the
/// throughput terms by the set's global maxima.  Records that measured no
/// download keep their zero scores.  Fails, scoring nothing, when either
/// maximum is zero.
#[verifier::loop_isolation(false)]
pub fn tabulate_score(scores: Vec<Stats>, game_wt: Weight, usage_wt: Weight) -> (r: Result<
    Vec<Stats>,
    ScoreError,
>)
    requires
        forall|i: int| 0 <= i < scores@.len() ==> (#[trigger] scores@[i]).wf(),
        game_wt.wf(),
        usage_wt.wf(),
    ensures
        match r {
            Ok(out) => {
                &&& spec_tabulate(scores@, game_wt, usage_wt) == Ok::<Seq<Stats>, ScoreError>(out@)
                &&& forall|i: int| 0 <= i < out@.len() ==> (#[trigger] out@[i]).wf()
            },
            Err(e) => spec_tabulate(scores@, game_wt, usage_wt) == Err::<Seq<Stats>, ScoreError>(e),
        },
{
    let ghost orig = scores@;
    let n = scores.len();
    let mut max_dl: u64 = 0;
    let mut max_ul: u64 = 0;
    let mut i: usize = 0;
    while i < n
        invariant
            i <= n,
            max_dl as nat == max_download(orig.take(i as int)),
            max_ul as nat == max_upload(orig.take(i as int)),
        decreases n - i,
    {
        proof {
            assert(orig.take(i + 1).drop_last() =~= orig.take(i as int));
        }
        if scores[i].download > max_dl {
            max_dl = scores[i].download;
        }
        if scores[i].upload > max_ul {
            max_ul = scores[i].upload;
        }
        i = i + 1;
    }
    proof {
        assert(orig.take(n as int) =~= orig);
    }
    if max_dl == 0 || max_ul == 0 {
        return Err(ScoreError::NoThroughputSignal);
    }
    proof {
        assert forall|k: int| 0 <= k < orig.len() implies (#[trigger] orig[k]).download <= max_dl
            && orig[k].upload <= max_ul by {
            lemma_max_download_ge(orig, k);
            lemma_max_upload_ge(orig, k);
        }
    }
    let mut rem = scores;
    let mut out: Vec<Stats> = Vec::new();
    while rem.len() > 0
        invariant
            out@.len() + rem@.len() == orig.len(),
            rem@ =~= orig.skip(out@.len() as int),
            forall|k: int|
                0 <= k < out@.len() ==> #[trigger] out@[k] == spec_scored(
                    orig[k],
                    game_wt,
                    usage_wt,
                    max_dl as nat,
                    max_ul as nat,
                ),
            forall|k: int| 0 <= k < out@.len() ==> (#[trigger] out@[k]).wf(),
        decreases rem@.len(),
    {
        let ghost k = out@.len() as int;
        proof {
            assert(rem@[0] == orig[k]);
        }
        let s = rem.remove(0);
        if s.download > 0 {
            let g = score_of(&s, &game_wt, max_dl, max_ul);
            let u = score_of(&s, &usage_wt, max_dl, max_ul);
            let scored = Stats { game_score: g, usage_score: u, ..s };
            proof {
                assert(scored == spec_scored(orig[k], game_wt, usage_wt, max_dl as nat, max_ul as nat));
            }
            out.push(scored);
        } else {
            out.push(s);
        }
        proof {
            assert(rem@ =~= orig.skip(out@.len() as int));
        }
    }
    proof {
        assert(out@ =~= orig.map_values(
            |r: Stats| spec_scored(r, game_wt, usage_wt, max_download(orig), max_upload(orig)),
        ));
    }
    Ok(out)
}

/// The first record carrying the set's highest game score: every record
/// scores no higher, and every earlier record scores strictly lower.
pub fn best_game_index(scores: &Vec<Stats>) -> (r: Option<usize>)
    ensures
        match r {
            Some(i) => {
                &&& i < scores@.len()
                &&& forall|j: int|
                    0 <= j < scores@.len() ==> (#[trigger] scores@[j]).game_score <= scores@[i as int].game_score
                &&& forall|j: int|
                    0 <= j < i ==> (#[trigger] scores@[j]).game_score < scores@[i as int].game_score
            },
            None => scores@.len() == 0,
        },
{
    if scores.len() == 0 {
        return None;
    }
    let mut best: usize = 0;
    let mut i: usize = 1;
    while i < scores.len()
        invariant
            best < i <= scores@.len(),
            forall|j: int|
                0 <= j < i ==> (#[trigger] scores@[j]).game_score <= scores@[best as int].game_score,
            forall|j: int|
                0 <= j < best ==> (#[trigger] scores@[j]).game_score < scores@[best as int].game_score,
        decreases scores@.len() - i,
    {
        if scores[i].game_score > scores[best].game_score {
            best = i;
        }
        i = i + 1;
    }
    Some(best)
}

/// The first record carrying the set's highest usage score.
pub fn best_usage_index(scores: &Vec<Stats>) -> (r: Option<usize>)
    ensures
        match r {
            Some(i) => {
                &&& i < scores@.len()
                &&& forall|j: int|
                    0 <= j < scores@.len() ==> (#[trigger] scores@[j]).usage_score <= scores@[i as int].usage_score
                &&& forall|j: int|
                    0 <= j < i ==> (#[trigger] scores@[j]).usage_score < scores@[i as int].usage_score
            },
            None => scores@.len() == 0,
        },
{
    if scores.len() == 0 {
        return None;
    }
    let mut best: usize = 0;
    let mut i: usize = 1;
    while i < scores.len()
        invariant
            best < i <= scores@.len(),
            forall|j: int|
                0 <= j < i ==> (#[trigger] scores@[j]).usage_score <= scores@[best as int].usage_score,
            forall|j: int|
                0 <= j < best ==> (#[trigger] scores@[j]).usage_score < scores@[best as int].usage_score,
        decreases scores@.len() - i,
    {
        if scores[i].usage_score > scores[best].usage_score {
            best = i;
        }
        i = i + 1;
    }
    Some(best)
}

/// Scoring a record changes neither its measured quantities nor which
/// record it is, so the set's maxima survive a scoring pass.
proof fn lemma_max_of_scored(s: Seq<Stats>, game_wt: Weight, usage_wt: Weight, max_dl: nat, max_ul: nat)
    ensures
        max_download(s.map_values(|r: Stats| spec_scored(r, game_wt, usage_wt, max_dl, max_ul)))
            == max_download(s),
        max_upload(s.map_values(|r: Stats| spec_scored(r, game_wt, usage_wt, max_dl, max_ul)))
            == max_upload(s),
    decreases s.len(),
{
    let f = |r: Stats| spec_scored(r, game_wt, usage_wt, max_dl, max_ul);
    if s.len() > 0 {
        lemma_max_of_scored(s.drop_last(), game_wt, usage_wt, max_dl, max_ul);
        assert(s.map_values(f).drop_last() =~= s.drop_last().map_values(f));
        assert(s.map_values(f).last() == f(s.last()));
    }
}

/// One scoring pass is as good as two: a record that is already scored is
/// scored to the same values again.
proof fn lemma_scored_idempotent(x: Stats, game_wt: Weight, usage_wt: Weight, max_dl: nat, max_ul: nat)
    ensures
        spec_scored(spec_scored(x, game_wt, usage_wt, max_dl, max_ul), game_wt, usage_wt, max_dl, max_ul)
            == spec_scored(x, game_wt, usage_wt, max_dl, max_ul),
{
}

/// The scorer is a pure function of the measured quantities: run again over
/// its own output, it returns that output unchanged.
pub proof fn lemma_scorer_idempotent(s: Seq<Stats>, game_wt: Weight, usage_wt: Weight)
    ensures
        spec_tabulate(s, game_wt, usage_wt) matches Ok(o) ==> spec_tabulate(o, game_wt, usage_wt)
            == Ok::<Seq<Stats>, ScoreError>(o),
{
    if spec_tabulate(s, game_wt, usage_wt) is Ok {
        let mdl = max_download(s);
        let mul = max_upload(s);
        let f = |r: Stats| spec_scored(r, game_wt, usage_wt, mdl, mul);
        let o = s.map_values(f);
        lemma_max_of_scored(s, game_wt, usage_wt, mdl, mul);
        assert forall|k: int| 0 <= k < o.len() implies #[trigger] f(o[k]) == o[k] by {
            lemma_scored_idempotent(s[k], game_wt, usage_wt, mdl, mul);
        }
        assert(o.map_values(f) =~= o);
    }
}

/// A record set in which nothing measured any download cannot be scored:
/// the scorer fails with the zero-maxima error and yields no record set.
pub proof fn lemma_zero_downloads_unscorable(s: Seq<Stats>, game_wt: Weight, usage_wt: Weight)
    requires
        forall|i: int| 0 <= i < s.len() ==> (#[trigger] s[i]).download == 0,
    ensures
        spec_tabulate(s, game_wt, usage_wt) == Err::<Seq<Stats>, ScoreError>(
            ScoreError::NoThroughputSignal,
        ),
{
    lemma_all_zero_download_max(s);
}

proof fn lemma_all_zero_download_max(s: Seq<Stats>)
    requires
        forall|i: int| 0 <= i < s.len() ==> (#[trigger] s[i]).download == 0,
    ensures
        max_download(s) == 0,
    decreases s.len(),
{
    if s.len() > 0 {
        lemma_all_zero_download_max(s.drop_last());
    }
}

} // verus!
