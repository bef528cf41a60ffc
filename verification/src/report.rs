//! Rendering counts and bucket widths as chat text: the decomposition of
//! a width into days, hours and minutes, its human-readable form, and the
//! dadded-count reply.

use vstd::arithmetic::div_mod::lemma_mod_division_less_than_divisor;
use vstd::prelude::*;

use crate::dadded::get_or_create_dad_model;
use crate::errors::Error;
use crate::records::{db_wf, Database};
use crate::dadded_manager::DaddedManager;

verus! {

/// The decimal digit character of `d` (for `0 <= d <= 9`).
pub open spec fn dec_digit_char(d: int) -> char {
    if d == 0 {
        '0'
    } else if d == 1 {
        '1'
    } else if d == 2 {
        '2'
    } else if d == 3 {
        '3'
    } else if d == 4 {
        '4'
    } else if d == 5 {
        '5'
    } else if d == 6 {
        '6'
    } else if d == 7 {
        '7'
    } else if d == 8 {
        '8'
    } else {
        '9'
    }
}

/// The decimal rendering of a non-negative number, most significant digit
/// first.
pub open spec fn dec_str(n: int) -> Seq<char>
    decreases n,
{
    if n < 10 {
        seq![dec_digit_char(n)]
    } else {
        dec_str(n / 10).push(dec_digit_char(n % 10))
    }
}

/// One decimal digit as text.
fn digit_str(d: u64) -> (r: &'static str)
    requires
        d < 10,
    ensures
        r@ == seq![dec_digit_char(d as int)],
{
    let r: &'static str = if d == 0 {
        "0"
    } else if d == 1 {
        "1"
    } else if d == 2 {
        "2"
    } else if d == 3 {
        "3"
    } else if d == 4 {
        "4"
    } else if d == 5 {
        "5"
    } else if d == 6 {
        "6"
    } else if d == 7 {
        "7"
    } else if d == 8 {
        "8"
    } else {
        "9"
    };
    proof {
        reveal_strlit("0");
        reveal_strlit("1");
        reveal_strlit("2");
        reveal_strlit("3");
        reveal_strlit("4");
        reveal_strlit("5");
        reveal_strlit("6");
        reveal_strlit("7");
        reveal_strlit("8");
        reveal_strlit("9");
        assert(r@ =~= seq![dec_digit_char(d as int)]);
    }
    r
}

/// Renders a number in decimal.
pub fn u64_to_string(n: u64) -> (r: String)
    ensures
        r@ == dec_str(n as int),
    decreases n,
{
    if n < 10 {
        String::from_str(digit_str(n))
    } else {
        let mut s = u64_to_string(n / 10);
        s.append(digit_str(n % 10));
        proof {
            assert(s@ =~= dec_str(n as int));
        }
        s
    }
}

/// The unit word of one component: empty for a zero count, singular for
/// one, plural otherwise.
pub open spec fn period_str(num: int, period_name: Seq<char>) -> Seq<char> {
    if num == 0 {
        Seq::empty()
    } else if num == 1 {
        period_name
    } else {
        period_name + "s"@
    }
}

/// One rendered component, a count and its unit word: `1 day`, `5 hours`.
pub open spec fn component_str(num: int, period_name: Seq<char>) -> Seq<char> {
    dec_str(num) + " "@ + period_str(num, period_name)
}

/// The rendering of a width split into days, hours and minutes:
/// zero-valued components are dropped, the rest are joined with single
/// spaces, and a width with no positive component is the word `instant`.
pub open spec fn duration_text(days: int, hours: int, minutes: int) -> Seq<char> {
    if days <= 0 && hours <= 0 && minutes <= 0 {
        "instant"@
    } else {
        let with_days = if days > 0 {
            component_str(days, "day"@)
        } else {
            Seq::empty()
        };
        let with_hours = if hours > 0 {
            (if days > 0 {
                with_days + " "@
            } else {
                with_days
            }) + component_str(hours, "hour"@)
        } else {
            with_days
        };
        if minutes > 0 {
            (if days > 0 || hours > 0 {
                with_hours + " "@
            } else {
                with_hours
            }) + component_str(minutes, "minute"@)
        } else {
            with_hours
        }
    }
}

/// A width decomposed into whole days, hours and minutes (the sub-minute
/// part is dropped).
#[derive(Debug, Clone, Copy, PartialEq, Eq, Structural)]
pub struct DadDurationText {
    pub days: i64,
    pub hours: i64,
    pub minutes: i64,
}

impl DadDurationText {
    /// Splits a non-negative width in milliseconds into whole days, then
    /// hours, then minutes of the remainder.
    pub fn new(dur: i64) -> (r: DadDurationText)
        requires
            dur >= 0,
        ensures
            r.days == dur as int / 86400000,
            r.hours == (dur as int % 86400000) / 3600000,
            r.minutes == ((dur as int % 86400000) % 3600000) / 60000,
    {
        proof {
            lemma_mod_division_less_than_divisor(dur as int, 86400000);
            lemma_mod_division_less_than_divisor(dur as int % 86400000, 3600000);
        }
        let days = dur / 86400000;
        let rem = dur % 86400000;
        let hours = rem / 3600000;
        let rem = rem % 3600000;
        let minutes = rem / 60000;
        DadDurationText { days, hours, minutes }
    }

    /// The rendered form of this width.
    pub fn get_text(self) -> (r: String)
        ensures
            r@ == duration_text(self.days as int, self.hours as int, self.minutes as int),
    {
        self.get_time_string_from_duration()
    }

    /// Renders one component count with its unit word, pluralized for any
    /// magnitude other than one and empty for zero.
    pub fn duration_time_to_string(num: i64, period_name: &str) -> (r: (i64, String))
        ensures
            r.0 == num,
            r.1@ == period_str(num as int, period_name@),
    {
        if num == 0 {
            (num, String::new())
        } else if num == 1 {
            (num, String::from_str(period_name))
        } else {
            let mut s = String::from_str(period_name);
            s.append("s");
            (num, s)
        }
    }

    /// Renders the width: positive components joined with single spaces,
    /// or `instant` when every component is zero or below.
    pub fn get_time_string_from_duration(&self) -> (r: String)
        ensures
            r@ == duration_text(self.days as int, self.hours as int, self.minutes as int),
    {
        let days = DadDurationText::duration_time_to_string(self.days, "day");
        let hours = DadDurationText::duration_time_to_string(self.hours, "hour");
        let minutes = DadDurationText::duration_time_to_string(self.minutes, "minute");
        if self.days <= 0 && self.hours <= 0 && self.minutes <= 0 {
            return String::from_str("instant");
        }
        let mut out = String::new();
        let mut first: bool = true;
        if self.days > 0 {
            let n = u64_to_string(self.days as u64);
            out.append(n.as_str());
            out.append(" ");
            out.append(days.1.as_str());
            first = false;
        }
        if self.hours > 0 {
            if !first {
                out.append(" ");
            }
            let n = u64_to_string(self.hours as u64);
            out.append(n.as_str());
            out.append(" ");
            out.append(hours.1.as_str());
            first = false;
        }
        if self.minutes > 0 {
            if !first {
                out.append(" ");
            }
            let n = u64_to_string(self.minutes as u64);
            out.append(n.as_str());
            out.append(" ");
            out.append(minutes.1.as_str());
        }
        proof {
            assert(out@ =~= duration_text(
                self.days as int,
                self.hours as int,
                self.minutes as int,
            ));
        }
        out
    }
}

/// The word for counting occurrences, singular only for exactly one.
pub open spec fn times_word(count: int) -> Seq<char> {
    if count == 1 {
        "time"@
    } else {
        "times"@
    }
}

/// The dadded-count reply: after a rollover has been observed it names
/// the bucket width, before one it refers to the last nap instead.
pub open spec fn dads_reply(count: int, awake: bool, width_ms: int) -> Seq<char> {
    "I've dadded "@ + dec_str(count) + " "@ + times_word(count) + (if awake {
        " in the past "@ + duration_text(
            width_ms / 86400000,
            (width_ms % 86400000) / 3600000,
            ((width_ms % 86400000) % 3600000) / 60000,
        )
    } else {
        " since my last nap"@
    })
}

/// Builds the reply to a dadded-count request from the current bucket's
/// counter, phrasing the window only when a rollover has been observed.
pub fn get_dads(db: &mut Database, dad_mgr: &mut DaddedManager, epoch_len: i64) -> (r: Result<
    String,
    Error,
>)
    requires
        epoch_len >= 0,
        old(db)@.next_dadded_id < u32::MAX,
    ensures
        ({
            let (m1, r1) = get_or_create_dad_model(old(db)@, old(dad_mgr).epoch_id);
            &&& final(db)@ == m1
            &&& *final(dad_mgr) == *old(dad_mgr)
            &&& match r1 {
                Ok(dad) => r matches Ok(s) && s@ == dads_reply(
                    dad.count as int,
                    old(dad_mgr).awake_since_last_epoch,
                    epoch_len as int,
                ),
                Err(e) => r == Err::<String, Error>(e),
            }
        }),
        db_wf(old(db)@) ==> db_wf(final(db)@),
{
    let dad = match dad_mgr.get_current_dad(db) {
        Ok(d) => d,
        Err(e) => {
            return Err(e);
        },
    };
    let mut resp = String::from_str("I've dadded ");
    let n = u64_to_string(dad.count as u64);
    resp.append(n.as_str());
    resp.append(" ");
    if dad.count == 1 {
        resp.append("time");
    } else {
        resp.append("times");
    }
    if dad_mgr.awake_since_last_epoch() {
        resp.append(" in the past ");
        let text = DadDurationText::new(epoch_len).get_text();
        resp.append(text.as_str());
    } else {
        resp.append(" since my last nap");
    }
    proof {
        assert(resp@ =~= dads_reply(
            dad.count as int,
            old(dad_mgr).awake_since_last_epoch,
            epoch_len as int,
        ));
    }
    Ok(resp)
}

} // verus!
