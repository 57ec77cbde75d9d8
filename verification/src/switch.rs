//! From an endpoint's host name to the switch command's selector argument.
//!
//! An endpoint's host name carries its server number in the third to fifth
//! characters; the switch command is handed a selector naming that number
//! in the provider's location pool.

use vstd::prelude::*;

use crate::milli::{is_digit, render_u64, dec_digits, DIGIT_ZERO};
use crate::report::{append_ascii, append_bytes, ascii_bytes};

verus! {

pub const PLUS: u8 = 0x2b;

/// The server number written in an endpoint's host name: its third to
/// fifth characters, read as an unsigned number (a leading plus sign is
/// tolerated).  Absent when the name is too short or holds no number
/// there.
pub open spec fn spec_server_number(s: Seq<u8>) -> Option<u16> {
    if s.len() < 5 {
        None
    } else {
        let a = s[2];
        let b = s[3];
        let c = s[4];
        if is_digit(a) && is_digit(b) && is_digit(c) {
            Some((((a - DIGIT_ZERO) * 100 + (b - DIGIT_ZERO) * 10 + (c - DIGIT_ZERO))) as u16)
        } else if a == PLUS && is_digit(b) && is_digit(c) {
            Some((((b - DIGIT_ZERO) * 10 + (c - DIGIT_ZERO))) as u16)
        } else {
            None
        }
    }
}

/// Reads the server number out of an endpoint's host name.
pub fn server_number(name: &[u8]) -> (r: Option<u16>)
    ensures
        r == spec_server_number(name@),
{
    if name.len() < 5 {
        return None;
    }
    let a = name[2];
    let b = name[3];
    let c = name[4];
    let b_digit = DIGIT_ZERO <= b && b <= 0x39;
    let c_digit = DIGIT_ZERO <= c && c <= 0x39;
    if DIGIT_ZERO <= a && a <= 0x39 && b_digit && c_digit {
        Some(
            (a - DIGIT_ZERO) as u16 * 100 + (b - DIGIT_ZERO) as u16 * 10 + (c - DIGIT_ZERO) as u16,
        )
    } else if a == PLUS && b_digit && c_digit {
        Some((b - DIGIT_ZERO) as u16 * 10 + (c - DIGIT_ZERO) as u16)
    } else {
        None
    }
}

/// The selector the switch command is invoked with, for one server number.
pub open spec fn spec_selector(n: nat) -> Seq<u8> {
    ascii_bytes("Singapore #"@) + dec_digits(n)
}

/// Builds the switch command's selector argument.
pub fn switch_selector(n: u16) -> (r: Vec<u8>)
    ensures
        r@ == spec_selector(n as nat),
{
    let mut out: Vec<u8> = Vec::new();
    proof {
        reveal_strlit("Singapore #");
    }
    append_ascii(&mut out, "Singapore #");
    let d = render_u64(n as u64);
    append_bytes(&mut out, d.as_slice());
    proof {
        assert(out@ =~= spec_selector(n as nat));
    }
    out
}

} // verus!
