//! The texts of the log: time stamps, days and lines.

use vstd::prelude::*;
use crate::text::{padded_dec, push_dec, push_padded_dec};

verus! {

/// A point in local time.
#[derive(Clone, Copy, Debug)]
pub struct LocalTime {
    pub year: u32,
    pub month: u32,
    pub day: u32,
    pub hour: u32,
    pub minute: u32,
    pub second: u32,
}

/// `YYYY-MM-DD`.
pub open spec fn date_text(t: LocalTime) -> Seq<char> {
    padded_dec(t.year as nat, 4) + "-"@ + padded_dec(t.month as nat, 2) + "-"@ + padded_dec(
        t.day as nat,
        2,
    )
}

/// `YYYY-MM-DD hh:mm:ss`.
pub open spec fn stamp_text(t: LocalTime) -> Seq<char> {
    date_text(t) + " "@ + padded_dec(t.hour as nat, 2) + ":"@ + padded_dec(t.minute as nat, 2)
        + ":"@ + padded_dec(t.second as nat, 2)
}

/// The day under which logs are filed. Where the time is not known it is always the same.
pub open spec fn day_of(t: Option<LocalTime>) -> Seq<char> {
    match t {
        Some(t) => date_text(t),
        None => "1970-01-01"@,
    }
}

/// The stamp of a log line: the local time, else the seconds since the epoch, else a question
/// mark.
pub open spec fn stamp_of(t: Option<LocalTime>, epoch: Option<u64>) -> Seq<char> {
    match t {
        Some(t) => stamp_text(t),
        None => match epoch {
            Some(n) => crate::text::dec(n as nat),
            None => "?"@,
        },
    }
}

fn push_date(out: &mut String, t: LocalTime)
    ensures
        final(out)@ == old(out)@ + date_text(t),
{
    let ghost before = out@;
    push_padded_dec(out, t.year as u64, 4);
    out.append("-");
    push_padded_dec(out, t.month as u64, 2);
    out.append("-");
    push_padded_dec(out, t.day as u64, 2);
    assert(out@ =~= before + date_text(t));
}

/// The day under which logs are filed.
pub fn local_date(t: Option<LocalTime>) -> (r: String)
    ensures
        r@ == day_of(t),
{
    match t {
        Some(t) => {
            let mut s: String = String::new();
            push_date(&mut s, t);
            assert(s@ =~= date_text(t));
            s
        },
        None => String::from_str("1970-01-01"),
    }
}

/// The stamp of a log line.
pub fn now_stamp(t: Option<LocalTime>, epoch: Option<u64>) -> (r: String)
    ensures
        r@ == stamp_of(t, epoch),
{
    let mut s: String = String::new();
    match t {
        Some(t) => {
            push_date(&mut s, t);
            assert(s@ =~= date_text(t));
            s.append(" ");
            push_padded_dec(&mut s, t.hour as u64, 2);
            s.append(":");
            push_padded_dec(&mut s, t.minute as u64, 2);
            s.append(":");
            push_padded_dec(&mut s, t.second as u64, 2);
        },
        None => match epoch {
            Some(n) => {
                push_dec(&mut s, n);
                assert(s@ =~= crate::text::dec(n as nat));
            },
            None => {
                s.append("?");
                assert(s@ =~= "?"@);
            },
        },
    }
    s
}

/// A line of the log.
pub fn log_line(stamp: &str, level: &str, msg: &str) -> (r: String)
    ensures
        r@ == "["@ + stamp@ + "] ["@ + level@ + "] "@ + msg@ + "\n"@,
{
    let mut s: String = String::from_str("[");
    s.append(stamp);
    s.append("] [");
    s.append(level);
    s.append("] ");
    s.append(msg);
    s.append("\n");
    s
}

/// What is noted when a version first runs.
pub fn effective_since_text(epoch: u64, stamp: &str) -> (r: String)
    ensures
        r@ == crate::text::dec(epoch as nat) + " "@ + stamp@ + "\n"@,
{
    let mut s: String = String::new();
    push_dec(&mut s, epoch);
    assert(s@ =~= crate::text::dec(epoch as nat));
    s.append(" ");
    s.append(stamp);
    s.append("\n");
    s
}

proof fn lemma_two_digits(n: nat)
    requires
        n < 100,
    ensures
        padded_dec(n, 2) =~= seq![
            crate::text::digit_char(n / 10),
            crate::text::digit_char(n % 10),
        ],
{
    reveal_with_fuel(crate::text::dec, 3);
    assert(crate::text::digit_char(0) == '0');
}

proof fn lemma_four_digits(n: nat)
    requires
        n < 10000,
    ensures
        padded_dec(n, 4) =~= seq![
            crate::text::digit_char(n / 1000),
            crate::text::digit_char(n / 100 % 10),
            crate::text::digit_char(n / 10 % 10),
            crate::text::digit_char(n % 10),
        ],
{
    reveal_with_fuel(crate::text::dec, 5);
    assert(crate::text::digit_char(0) == '0');
    assert(n / 10 / 10 == n / 100 && n / 10 / 10 / 10 == n / 1000);
}

/// A day has four digits, a dash, two digits, a dash and two digits.
pub proof fn law_day_shape(t: LocalTime)
    requires
        t.year <= 9999,
        t.month <= 99,
        t.day <= 99,
    ensures
        date_text(t).len() == 10,
        forall|i: int|
            0 <= i < 10 ==> (if i == 4 || i == 7 {
                #[trigger] date_text(t)[i] == '-'
            } else {
                crate::text::is_digit(date_text(t)[i])
            }),
{
    reveal_strlit("-");
    lemma_four_digits(t.year as nat);
    lemma_two_digits(t.month as nat);
    lemma_two_digits(t.day as nat);
    let y = t.year as nat;
    assert(y / 1000 < 10 && y / 100 % 10 < 10 && y / 10 % 10 < 10 && y % 10 < 10);
    assert((t.month as nat) / 10 < 10 && (t.day as nat) / 10 < 10);
    let d = date_text(t);
    assert(d[0] == padded_dec(y, 4)[0] && d[1] == padded_dec(y, 4)[1] && d[2] == padded_dec(
        y,
        4,
    )[2] && d[3] == padded_dec(y, 4)[3]);
    assert(d[5] == padded_dec(t.month as nat, 2)[0] && d[6] == padded_dec(t.month as nat, 2)[1]);
    assert(d[8] == padded_dec(t.day as nat, 2)[0] && d[9] == padded_dec(t.day as nat, 2)[1]);
    assert forall|i: int| 0 <= i < 10 implies (if i == 4 || i == 7 {
        #[trigger] d[i] == '-'
    } else {
        crate::text::is_digit(d[i])
    }) by {
        if i == 0 || i == 1 || i == 2 || i == 3 || i == 5 || i == 6 || i == 8 || i == 9 {
        }
    }
}

} // verus!
