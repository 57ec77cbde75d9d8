//! The tab-separated results table.
//!
//! One header row, then one row per outcome record in run order.  The
//! packet-loss column shows "N/A" for a record without packet-loss data —
//! never the numeric stand-in — and an unresolved address column shows
//! "N/A" as well.

use vstd::prelude::*;

use crate::addr::IP;
use crate::milli::{
    dec_digits, render_milli, render_milli_signed, spec_render_milli, spec_render_milli_signed, DOT,
};
use crate::outcome::Stats;
use crate::sample::TAB;

verus! {

pub const NL: u8 = 0x0a;

/// The bytes of an ascii text.
pub open spec fn ascii_bytes(s: Seq<char>) -> Seq<u8> {
    Seq::new(s.len(), |i: int| s[i] as u8)
}

/// The marker shown where a value is unavailable.
pub open spec fn spec_na() -> Seq<u8> {
    ascii_bytes("N/A"@)
}

/// An address in dotted-decimal form.
pub open spec fn spec_dotted(ip: IP) -> Seq<u8> {
    dec_digits(ip.octets[0] as nat) + seq![DOT] + dec_digits(ip.octets[1] as nat) + seq![DOT]
        + dec_digits(ip.octets[2] as nat) + seq![DOT] + dec_digits(ip.octets[3] as nat)
}

/// An address column: dotted-decimal, or the marker when unresolved.
pub open spec fn spec_opt_ip(ip: Option<IP>) -> Seq<u8> {
    match ip {
        Some(ip) => spec_dotted(ip),
        None => spec_na(),
    }
}

/// The packet-loss column: the measured value, or the marker when none
/// was measured.
pub open spec fn spec_packet_loss(s: Stats) -> Seq<u8> {
    if s.no_pl_data {
        spec_na()
    } else {
        spec_render_milli(s.packet_loss as nat)
    }
}

/// One record's row.
pub open spec fn spec_row(s: Stats) -> Seq<u8> {
    s.nord_server@ + seq![TAB] + spec_opt_ip(s.server_ip) + seq![TAB] + spec_opt_ip(s.internet_ip)
        + seq![TAB] + spec_render_milli(s.latency as nat) + seq![TAB] + spec_render_milli(
        s.jitter as nat,
    ) + seq![TAB] + spec_packet_loss(s) + seq![TAB] + spec_render_milli(s.download as nat)
        + seq![TAB] + spec_render_milli(s.upload as nat) + seq![TAB] + spec_render_milli_signed(
        s.game_score as int,
    ) + seq![TAB] + spec_render_milli_signed(s.usage_score as int) + seq![NL]
}

/// The rows of a record set, in order.
pub open spec fn spec_rows(s: Seq<Stats>) -> Seq<u8>
    decreases s.len(),
{
    if s.len() == 0 {
        Seq::empty()
    } else {
        spec_rows(s.drop_last()) + spec_row(s.last())
    }
}

/// The header row.
pub open spec fn spec_header() -> Seq<u8> {
    ascii_bytes(
        "nord_server\tserver_ip\tinternet_ip\tlatency\tjitter\tpacket_loss\tdownload\tupload\tgame_score\tusage_score\n"@,
    )
}

/// The whole report.
pub open spec fn spec_report(s: Seq<Stats>) -> Seq<u8> {
    spec_header() + spec_rows(s)
}

/// Appends raw bytes.
#[verifier::loop_isolation(false)]
pub(crate) fn append_bytes(out: &mut Vec<u8>, b: &[u8])
    ensures
        final(out)@ == old(out)@ + b@,
{
    let mut i: usize = 0;
    while i < b.len()
        invariant
            i <= b@.len(),
            out@ =~= old(out)@ + b@.take(i as int),
        decreases b@.len() - i,
    {
        out.push(b[i]);
        proof {
            assert(out@ =~= old(out)@ + b@.take(i + 1));
        }
        i = i + 1;
    }
    proof {
        assert(b@.take(b@.len() as int) =~= b@);
    }
}

/// Appends an ascii text.
pub(crate) fn append_ascii(out: &mut Vec<u8>, s: &str)
    requires
        vstd::string::is_ascii(s),
    ensures
        final(out)@ == old(out)@ + ascii_bytes(s@),
{
    let b = s.as_bytes();
    proof {
        broadcast use vstd::string::is_ascii_spec_bytes;

        assert(b@ =~= ascii_bytes(s@));
    }
    append_bytes(out, b);
}

/// Appends one address, dotted-decimal.
fn append_ip(out: &mut Vec<u8>, ip: &IP)
    ensures
        final(out)@ == old(out)@ + spec_dotted(*ip),
{
    let o0 = render_u8(ip.octets[0]);
    append_bytes(out, o0.as_slice());
    out.push(DOT);
    let o1 = render_u8(ip.octets[1]);
    append_bytes(out, o1.as_slice());
    out.push(DOT);
    let o2 = render_u8(ip.octets[2]);
    append_bytes(out, o2.as_slice());
    out.push(DOT);
    let o3 = render_u8(ip.octets[3]);
    append_bytes(out, o3.as_slice());
    proof {
        assert(out@ =~= old(out)@ + spec_dotted(*ip));
    }
}

/// Writes one octet in decimal.
fn render_u8(n: u8) -> (r: Vec<u8>)
    ensures
        r@ == dec_digits(n as nat),
{
    crate::milli::render_u64(n as u64)
}

/// Appends an address column.
fn append_opt_ip(out: &mut Vec<u8>, ip: &Option<IP>)
    ensures
        final(out)@ == old(out)@ + spec_opt_ip(*ip),
{
    match ip {
        Some(ip) => append_ip(out, ip),
        None => {
            proof {
                reveal_strlit("N/A");
            }
            append_ascii(out, "N/A");
        },
    }
}

/// Appends one record's row.
#[verifier::rlimit(60)]
fn append_row(out: &mut Vec<u8>, s: &Stats)
    ensures
        final(out)@ == old(out)@ + spec_row(*s),
{
    append_bytes(out, s.nord_server.as_slice());
    out.push(TAB);
    append_opt_ip(out, &s.server_ip);
    out.push(TAB);
    append_opt_ip(out, &s.internet_ip);
    out.push(TAB);
    let t = render_milli(s.latency);
    append_bytes(out, t.as_slice());
    out.push(TAB);
    let t = render_milli(s.jitter);
    append_bytes(out, t.as_slice());
    out.push(TAB);
    if s.no_pl_data {
        proof {
            reveal_strlit("N/A");
        }
        append_ascii(out, "N/A");
    } else {
        let t = render_milli(s.packet_loss);
        append_bytes(out, t.as_slice());
    }
    out.push(TAB);
    let t = render_milli(s.download);
    append_bytes(out, t.as_slice());
    out.push(TAB);
    let t = render_milli(s.upload);
    append_bytes(out, t.as_slice());
    out.push(TAB);
    let t = render_milli_signed(s.game_score);
    append_bytes(out, t.as_slice());
    out.push(TAB);
    let t = render_milli_signed(s.usage_score);
    append_bytes(out, t.as_slice());
    out.push(NL);
    proof {
        assert(out@ =~= old(out)@ + spec_row(*s));
    }
}

/// Appends the header row.
#[verifier::rlimit(60)]
fn append_header(out: &mut Vec<u8>)
    ensures
        final(out)@ == old(out)@ + spec_header(),
{
    proof {
        reveal_strlit(
            "nord_server\tserver_ip\tinternet_ip\tlatency\tjitter\tpacket_loss\tdownload\tupload\tgame_score\tusage_score\n",
        );
    }
    append_ascii(
        out,
        "nord_server\tserver_ip\tinternet_ip\tlatency\tjitter\tpacket_loss\tdownload\tupload\tgame_score\tusage_score\n",
    );
}

/// Renders the whole report: the header row, then one row per record, in
/// run order.
#[verifier::loop_isolation(false)]
#[verifier::rlimit(60)]
pub fn render_results(scores: &Vec<Stats>) -> (r: Vec<u8>)
    ensures
        r@ == spec_report(scores@),
{
    let mut out: Vec<u8> = Vec::new();
    append_header(&mut out);
    proof {
        assert(out@ =~= spec_header() + spec_rows(scores@.take(0)));
    }
    let mut i: usize = 0;
    while i < scores.len()
        invariant
            i <= scores@.len(),
            out@ =~= spec_header() + spec_rows(scores@.take(i as int)),
        decreases scores@.len() - i,
    {
        append_row(&mut out, &scores[i]);
        proof {
            assert(scores@.take(i + 1).drop_last() =~= scores@.take(i as int));
            assert(scores@.take(i + 1).last() == scores@[i as int]);
            assert(out@ =~= spec_header() + spec_rows(scores@.take(i + 1)));
        }
        i = i + 1;
    }
    proof {
        assert(scores@.take(scores@.len() as int) =~= scores@);
    }
    out
}

/// The rows of a split set are the rows of its parts.
#[verifier::rlimit(60)]
proof fn lemma_rows_split(s: Seq<Stats>, k: int)
    requires
        0 <= k <= s.len(),
    ensures
        spec_rows(s) == spec_rows(s.take(k)) + spec_rows(s.skip(k)),
    decreases s.len(),
{
    if k == s.len() {
        assert(s.take(k) =~= s);
        assert(spec_rows(s.skip(k)) =~= Seq::empty());
        assert(spec_rows(s) =~= spec_rows(s.take(k)) + spec_rows(s.skip(k)));
    } else {
        let dl = s.drop_last();
        lemma_rows_split(dl, k);
        assert(dl.take(k) =~= s.take(k));
        assert(s.skip(k).drop_last() =~= dl.skip(k));
        assert(s.skip(k).last() == s.last());
        assert(spec_rows(s) =~= spec_rows(s.take(k)) + spec_rows(s.skip(k)));
    }
}

/// Every record appears in the report exactly once, as its own row, at
/// its position in the run order.
pub proof fn lemma_report_lists_every_record(s: Seq<Stats>, i: int)
    requires
        0 <= i < s.len(),
    ensures
        spec_report(s) == spec_header() + spec_rows(s.take(i)) + spec_row(s[i]) + spec_rows(
            s.skip(i + 1),
        ),
{
    lemma_rows_split(s, i + 1);
    assert(s.take(i + 1).drop_last() =~= s.take(i));
    assert(s.take(i + 1).last() == s[i]);
    assert(spec_report(s) =~= spec_header() + spec_rows(s.take(i)) + spec_row(s[i]) + spec_rows(
        s.skip(i + 1),
    ));
}

} // verus!
