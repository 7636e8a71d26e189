//! Local calendar time as plain fields, and the two fixed formats the agent
//! derives from it: the `YYYY-MM-DD_HH-MM` suffix of a rotated backup
//! directory and the `YYYY-MM-DD HH:MM:SS` stamp of a commit message.

use vstd::prelude::*;
use vstd::string::*;
use chrono::Datelike;
use chrono::Timelike;

verus! {

/// One reading of the local clock, split into plain calendar fields.
#[derive(Clone, Copy, PartialEq, Eq, Structural, Debug)]
pub struct Timestamp {
    pub year: i32,
    pub month: u32,
    pub day: u32,
    pub hour: u32,
    pub minute: u32,
    pub second: u32,
}

impl Timestamp {
    /// The field ranges of a calendar time.
    pub open spec fn wf(self) -> bool {
        &&& 1 <= self.month <= 12
        &&& 1 <= self.day <= 31
        &&& self.hour <= 23
        &&& self.minute <= 59
        &&& self.second <= 59
    }
}

/// Relies on `chrono::Local::now` and chrono's `Datelike` / `Timelike`
/// accessors: the reading depends on the clock, so nothing is claimed of the
/// values beyond the ranges their documentation states (month 1..=12,
/// day 1..=31, hour 0..=23, minute 0..=59, second 0..=59).
#[verifier::external_body]
pub fn now_local() -> (ts: Timestamp)
    ensures
        ts.wf(),
{
    let now = chrono::Local::now();
    Timestamp {
        year: now.year(),
        month: now.month(),
        day: now.day(),
        hour: now.hour(),
        minute: now.minute(),
        second: now.second(),
    }
}

/// The decimal digit character for `d` in `0..=9`.
pub open spec fn digit_char(d: int) -> char {
    if d == 0 {
        '0'
    } else if d == 1 {
        '1'
    } else if d == 2 {
        '2'
    } else if d == 3 {
        '3'
    } else if d == 4 {
        '4'
    } else if d == 5 {
        '5'
    } else if d == 6 {
        '6'
    } else if d == 7 {
        '7'
    } else if d == 8 {
        '8'
    } else {
        '9'
    }
}

/// The decimal digits of a nonnegative number, most significant first.
pub open spec fn dec_of(n: int) -> Seq<char>
    decreases n,
{
    if n < 10 {
        seq![digit_char(n)]
    } else {
        dec_of(n / 10).push(digit_char(n % 10))
    }
}

/// Two decimal digits, zero-padded, for `n` in `0..=99`.
pub open spec fn dec2(n: int) -> Seq<char> {
    seq![digit_char(n / 10), digit_char(n % 10)]
}

/// Left-pad a digit string with zeros to at least four characters.
pub open spec fn pad4(digits: Seq<char>) -> Seq<char> {
    if digits.len() >= 4 {
        digits
    } else {
        Seq::new((4 - digits.len()) as nat, |i: int| '0') + digits
    }
}

/// A year as at least four characters, zero-padded, with a leading minus
/// sign for years before year zero.
pub open spec fn year4(y: int) -> Seq<char> {
    if y < 0 {
        seq!['-'] + pad4(dec_of(-y))
    } else {
        pad4(dec_of(y))
    }
}

/// Append the digit character of `d`.
fn push_digit(out: &mut String, d: u32)
    requires
        d < 10,
    ensures
        final(out)@ == old(out)@ + seq![digit_char(d as int)],
{
    let digits = "0123456789";
    proof {
        reveal_strlit("0123456789");
    }
    let c = digits.substring_char(d as usize, d as usize + 1);
    proof {
        assert(c@ =~= seq![digit_char(d as int)]);
    }
    out.append(c);
}

/// Append `n` in `0..=99` as two zero-padded digits.
fn push_2digit(out: &mut String, n: u32)
    requires
        n <= 99,
    ensures
        final(out)@ == old(out)@ + dec2(n as int),
{
    push_digit(out, n / 10);
    push_digit(out, n % 10);
    proof {
        assert(out@ =~= old(out)@ + dec2(n as int));
    }
}

/// Append the decimal digits of `n`, most significant first.
fn push_dec(out: &mut String, n: u32)
    ensures
        final(out)@ == old(out)@ + dec_of(n as int),
    decreases n,
{
    if n < 10 {
        push_digit(out, n);
    } else {
        push_dec(out, n / 10);
        push_digit(out, n % 10);
        proof {
            assert(out@ =~= old(out)@ + dec_of(n as int));
        }
    }
}

/// Append a year, zero-padded to at least four characters, with a minus sign
/// for years before year zero.
fn push_year(out: &mut String, y: i32)
    ensures
        final(out)@ == old(out)@ + year4(y as int),
{
    let mag: u32 = if y < 0 {
        proof {
            assert(0 < -(y as int) <= 0x8000_0000);
        }
        (-(y as i64)) as u32
    } else {
        y as u32
    };
    if y < 0 {
        out.append("-");
        proof {
            reveal_strlit("-");
        }
    }
    let ghost base: Seq<char> = out@;
    proof {
        lemma_dec_len_facts(mag as int);
        reveal_strlit("0");
    }
    // A magnitude below 1000 has fewer than four digits; pad with zeros.
    if mag < 1000 {
        out.append("0");
    }
    if mag < 100 {
        out.append("0");
    }
    if mag < 10 {
        out.append("0");
    }
    push_dec(out, mag);
    proof {
        assert(out@ =~= base + pad4(dec_of(mag as int)));
        assert(out@ =~= old(out)@ + year4(y as int));
    }
}

/// How many decimal digits a nonnegative number has, by range.
proof fn lemma_dec_len_facts(n: int)
    requires
        0 <= n,
    ensures
        n < 10 ==> dec_of(n).len() == 1,
        10 <= n < 100 ==> dec_of(n).len() == 2,
        100 <= n < 1000 ==> dec_of(n).len() == 3,
        1000 <= n ==> dec_of(n).len() >= 4,
    decreases n,
{
    if n >= 10 {
        lemma_dec_len_facts(n / 10);
    }
}

/// The `YYYY-MM-DD_HH-MM` stamp a rotated backup directory is suffixed with.
pub open spec fn rotation_stamp_spec(ts: Timestamp) -> Seq<char> {
    year4(ts.year as int) + seq!['-'] + dec2(ts.month as int) + seq!['-'] + dec2(ts.day as int)
        + seq!['_'] + dec2(ts.hour as int) + seq!['-'] + dec2(ts.minute as int)
}

/// Format the rotation stamp of a calendar time.
pub fn rotation_stamp(ts: Timestamp) -> (r: String)
    requires
        ts.wf(),
    ensures
        r@ == rotation_stamp_spec(ts),
{
    let mut out = String::new();
    push_year(&mut out, ts.year);
    out.append("-");
    push_2digit(&mut out, ts.month);
    out.append("-");
    push_2digit(&mut out, ts.day);
    out.append("_");
    push_2digit(&mut out, ts.hour);
    out.append("-");
    push_2digit(&mut out, ts.minute);
    proof {
        reveal_strlit("-");
        reveal_strlit("_");
        assert(out@ =~= rotation_stamp_spec(ts));
    }
    out
}

/// The `YYYY-MM-DD HH:MM:SS` stamp inside a commit message.
pub open spec fn commit_stamp_spec(ts: Timestamp) -> Seq<char> {
    year4(ts.year as int) + seq!['-'] + dec2(ts.month as int) + seq!['-'] + dec2(ts.day as int)
        + seq![' '] + dec2(ts.hour as int) + seq![':'] + dec2(ts.minute as int) + seq![':']
        + dec2(ts.second as int)
}

/// Format the commit-message stamp of a calendar time.
pub fn commit_stamp(ts: Timestamp) -> (r: String)
    requires
        ts.wf(),
    ensures
        r@ == commit_stamp_spec(ts),
{
    let mut out = String::new();
    push_year(&mut out, ts.year);
    out.append("-");
    push_2digit(&mut out, ts.month);
    out.append("-");
    push_2digit(&mut out, ts.day);
    out.append(" ");
    push_2digit(&mut out, ts.hour);
    out.append(":");
    push_2digit(&mut out, ts.minute);
    out.append(":");
    push_2digit(&mut out, ts.second);
    proof {
        reveal_strlit("-");
        reveal_strlit(" ");
        reveal_strlit(":");
        assert(out@ =~= commit_stamp_spec(ts));
    }
    out
}

/// The message of one backup commit.
pub open spec fn commit_message_spec(ts: Timestamp) -> Seq<char> {
    "Backup am "@ + commit_stamp_spec(ts)
}

/// Build the commit message carrying the given calendar time.
pub fn commit_message(ts: Timestamp) -> (r: String)
    requires
        ts.wf(),
    ensures
        r@ == commit_message_spec(ts),
{
    let mut out = String::from_str("Backup am ");
    let stamp = commit_stamp(ts);
    out.append(stamp.as_str());
    out
}

} // verus!
