//! Second-precision timestamps and the fixed `|YYYY-MM-DD HH:MM:SS| message`
//! log-line format, with a verified decimal formatter.
use vstd::prelude::*;

use chrono::{Datelike, Timelike};

verus! {

/// A civil date and time, second precision.
pub struct Stamp {
    pub year: i32,
    pub month: u32,
    pub day: u32,
    pub hour: u32,
    pub minute: u32,
    pub second: u32,
}

impl Stamp {
    /// Component ranges of a civil time.
    pub open spec fn wf(self) -> bool {
        &&& 1 <= self.month <= 12
        &&& 1 <= self.day <= 31
        &&& self.hour <= 23
        &&& self.minute <= 59
        &&& self.second <= 59
    }
}

/// Relies on `chrono::Utc::now` and its `Datelike` / `Timelike` accessors:
/// the current UTC civil time, whose component ranges chrono documents
/// (month 1-12, day 1-31, hour 0-23, minute and second 0-59).
#[verifier::external_body]
fn chrono_now_utc() -> (r: Stamp)
    ensures
        r.wf(),
{
    let now = chrono::Utc::now();
    Stamp {
        year: now.year(),
        month: now.month(),
        day: now.day(),
        hour: now.hour(),
        minute: now.minute(),
        second: now.second(),
    }
}

/// The current UTC civil time, second precision; whatever the clock says,
/// the components lie in their civil ranges.
pub fn now_utc() -> (r: Stamp)
    ensures
        r.wf(),
{
    chrono_now_utc()
}

/// The character for one decimal digit.
pub open spec fn digit_char(d: nat) -> char {
    ((d + 48) as u8) as char
}

/// The decimal digits of `n`, most significant first.
pub open spec fn dec_digits(n: nat) -> Seq<char>
    decreases n,
{
    if n < 10 {
        seq![digit_char(n)]
    } else {
        dec_digits(n / 10) + seq![digit_char(n % 10)]
    }
}

/// The decimal digits of `n`, zero-padded on the left to two places.
pub open spec fn pad2(n: nat) -> Seq<char> {
    if n < 10 {
        seq!['0'] + dec_digits(n)
    } else {
        dec_digits(n)
    }
}

/// A possibly negative number in decimal, with a leading minus sign.
pub open spec fn dec_signed(n: int) -> Seq<char> {
    if n < 0 {
        seq!['-'] + dec_digits((-n) as nat)
    } else {
        dec_digits(n as nat)
    }
}

/// Appends the decimal digits of `n` to `out`.
pub fn push_dec(n: u64, out: &mut Vec<char>)
    ensures
        final(out)@ == old(out)@ + dec_digits(n as nat),
    decreases n,
{
    if n < 10 {
        out.push((n as u8 + 48) as char);
        assert(out@ =~= old(out)@ + dec_digits(n as nat));
    } else {
        push_dec(n / 10, out);
        out.push(((n % 10) as u8 + 48) as char);
        assert(out@ =~= old(out)@ + dec_digits(n as nat));
    }
}

/// Appends `n` zero-padded to two places.
pub fn push_pad2(n: u32, out: &mut Vec<char>)
    ensures
        final(out)@ == old(out)@ + pad2(n as nat),
{
    if n < 10 {
        out.push('0');
    }
    push_dec(n as u64, out);
    assert(out@ =~= old(out)@ + pad2(n as nat));
}

/// Appends `n` in decimal with a sign when negative.
pub fn push_signed(n: i32, out: &mut Vec<char>)
    ensures
        final(out)@ == old(out)@ + dec_signed(n as int),
{
    if n < 0 {
        out.push('-');
        let m: u64 = (-(n as i64)) as u64;
        push_dec(m, out);
    } else {
        push_dec(n as u64, out);
    }
    assert(out@ =~= old(out)@ + dec_signed(n as int));
}

/// The formatted log line for a message at a given time:
/// `|YYYY-MM-DD HH:MM:SS| message`.
pub open spec fn log_line_spec(at: Stamp, msg: Seq<char>) -> Seq<char> {
    seq!['|'] + dec_signed(at.year as int) + seq!['-'] + pad2(at.month as nat) + seq!['-'] + pad2(
        at.day as nat,
    ) + seq![' '] + pad2(at.hour as nat) + seq![':'] + pad2(at.minute as nat) + seq![':'] + pad2(
        at.second as nat,
    ) + seq!['|', ' '] + msg
}

/// Formats a message with its timestamp, exactly as `log_line_spec` says.
pub fn format_log_line(at: &Stamp, msg: &Vec<char>) -> (r: Vec<char>)
    ensures
        r@ == log_line_spec(*at, msg@),
{
    let mut out: Vec<char> = Vec::new();
    out.push('|');
    push_signed(at.year, &mut out);
    out.push('-');
    push_pad2(at.month, &mut out);
    out.push('-');
    push_pad2(at.day, &mut out);
    out.push(' ');
    push_pad2(at.hour, &mut out);
    out.push(':');
    push_pad2(at.minute, &mut out);
    out.push(':');
    push_pad2(at.second, &mut out);
    out.push('|');
    out.push(' ');
    let mut i: usize = 0;
    let ghost prefix = out@;
    while i < msg.len()
        invariant
            i <= msg.len(),
            out@ == prefix + msg@.subrange(0, i as int),
        decreases msg.len() - i,
    {
        out.push(msg[i]);
        assert(out@ =~= prefix + msg@.subrange(0, i + 1));
        i += 1;
    }
    proof {
        assert(msg@.subrange(0, msg@.len() as int) =~= msg@);
        assert(out@ =~= log_line_spec(*at, msg@));
    }
    out
}

} // verus!
