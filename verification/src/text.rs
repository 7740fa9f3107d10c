//! The texts that the decoder puts into its parse errors.

use vstd::prelude::*;
use vstd::string::StringExecFns;

verus! {

/// The character of a decimal digit `d` (`d < 10`).
pub open spec fn digit_char(d: nat) -> char {
    (48 + d) as char
}

/// The decimal digits of `n`, most significant first, with no sign and no
/// leading zeros (zero itself is the single digit `0`).
pub open spec fn decimal(n: nat) -> Seq<char>
    decreases n,
{
    if n < 10 {
        seq![digit_char(n)]
    } else {
        decimal(n / 10) + seq![digit_char(n % 10)]
    }
}

/// The message of a header that does not fit in the buffer.
pub open spec fn too_short_message() -> Seq<char> {
    "buffer too short for header"@
}

/// The message of a frame whose payload has not fully arrived.
pub open spec fn incomplete_message(have: nat, need: nat) -> Seq<char> {
    "incomplete frame: have "@ + decimal(have) + " need "@ + decimal(need)
}

/// The message of a header whose type byte names no known frame type.
pub open spec fn unknown_type_message(byte: nat) -> Seq<char> {
    "unknown frame type "@ + decimal(byte)
}

/// The one-character text of a decimal digit.
fn digit_str(d: u64) -> (s: &'static str)
    requires
        d < 10,
    ensures
        s@ == seq![digit_char(d as nat)],
{
    proof {
        reveal_strlit("0");
        reveal_strlit("1");
        reveal_strlit("2");
        reveal_strlit("3");
        reveal_strlit("4");
        reveal_strlit("5");
        reveal_strlit("6");
        reveal_strlit("7");
        reveal_strlit("8");
        reveal_strlit("9");
    }
    let s = if d == 0 {
        "0"
    } else if d == 1 {
        "1"
    } else if d == 2 {
        "2"
    } else if d == 3 {
        "3"
    } else if d == 4 {
        "4"
    } else if d == 5 {
        "5"
    } else if d == 6 {
        "6"
    } else if d == 7 {
        "7"
    } else if d == 8 {
        "8"
    } else {
        "9"
    };
    assert(s@ =~= seq![digit_char(d as nat)]);
    s
}

/// The decimal digits of `n`, most significant first.
fn decimal_string(n: u64) -> (s: String)
    ensures
        s@ == decimal(n as nat),
    decreases n,
{
    if n < 10 {
        digit_str(n).to_owned()
    } else {
        let mut s = decimal_string(n / 10);
        s.append(digit_str(n % 10));
        s
    }
}

/// The message of a frame whose payload has not fully arrived.
pub(crate) fn incomplete_frame_message(have: usize, need: u64) -> (m: String)
    ensures
        m@ == incomplete_message(have as nat, need as nat),
{
    let mut m = "incomplete frame: have ".to_owned();
    let have_digits = decimal_string(have as u64);
    m.append(have_digits.as_str());
    m.append(" need ");
    let need_digits = decimal_string(need);
    m.append(need_digits.as_str());
    m
}

/// The message of a header whose type byte names no known frame type.
pub(crate) fn unknown_type_message_string(byte: u8) -> (m: String)
    ensures
        m@ == unknown_type_message(byte as nat),
{
    let mut m = "unknown frame type ".to_owned();
    let digits = decimal_string(byte as u64);
    m.append(digits.as_str());
    m
}

} // verus!
