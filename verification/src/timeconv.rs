//! Epoch-to-UTC timestamp conversion.
//!
//! A node's first-seen time arrives as Unix epoch seconds and is stored
//! and served as a UTC civil timestamp. `UtcTimestamp` holds the civil
//! fields as plain integers; `unix_to_timestamptz` converts epoch
//! seconds to it, and its contract states the exact inverse relation:
//! mapping the civil fields back through the Gregorian calendar yields
//! the seconds converted. `rfc3339_text` renders a timestamp in the
//! `YYYY-MM-DDTHH:MM:SSZ` shape the read endpoint serves.

use vstd::prelude::*;

use crate::digits::{pad_chars, push_pad};

verus! {

/// A civil UTC timestamp at second precision.
#[derive(Clone, Copy, PartialEq, Eq, Structural, Debug)]
pub struct UtcTimestamp {
    pub year: u64,
    pub month: u64,
    pub day: u64,
    pub hour: u64,
    pub minute: u64,
    pub second: u64,
}

pub open spec fn is_leap_year(y: nat) -> bool {
    y % 4 == 0 && (y % 100 != 0 || y % 400 == 0)
}

pub open spec fn days_in_year(y: nat) -> nat {
    if is_leap_year(y) {
        366
    } else {
        365
    }
}

pub open spec fn days_in_month(y: nat, m: nat) -> nat {
    if m == 2 {
        if is_leap_year(y) {
            29
        } else {
            28
        }
    } else if m == 4 || m == 6 || m == 9 || m == 11 {
        30
    } else {
        31
    }
}

/// Days from 1970-01-01 to the first day of year `y`.
pub open spec fn days_before_year(y: nat) -> nat
    decreases y,
{
    if y <= 1970 {
        0
    } else {
        days_before_year((y - 1) as nat) + days_in_year((y - 1) as nat)
    }
}

/// Days from the first day of year `y` to the first day of month `m`.
pub open spec fn days_before_month(y: nat, m: nat) -> nat
    decreases m,
{
    if m <= 1 {
        0
    } else {
        days_before_month(y, (m - 1) as nat) + days_in_month(y, (m - 1) as nat)
    }
}

impl UtcTimestamp {
    /// The fields name a real calendar instant at or after the epoch
    /// origin.
    pub open spec fn wf(self) -> bool {
        &&& 1970 <= self.year
        &&& 1 <= self.month <= 12
        &&& 1 <= self.day <= days_in_month(self.year as nat, self.month as nat)
        &&& self.hour < 24
        &&& self.minute < 60
        &&& self.second < 60
    }

    /// The Unix epoch seconds that this civil instant names.
    pub open spec fn epoch(self) -> int {
        (days_before_year(self.year as nat) + days_before_month(
            self.year as nat,
            self.month as nat,
        ) + self.day - 1) * 86400 + self.hour * 3600 + self.minute * 60 + self.second
    }
}

/// Steps year by year from `y`: the year that `days` days after the
/// first day of `y` fall in, with the days left inside that year.
pub open spec fn year_from(y: nat, days: nat) -> (nat, nat)
    decreases days,
{
    if days >= days_in_year(y) {
        year_from(y + 1, (days - days_in_year(y)) as nat)
    } else {
        (y, days)
    }
}

/// Steps month by month inside year `y` from month `m`.
pub open spec fn month_from(y: nat, m: nat, days: nat) -> (nat, nat)
    decreases 12 - m,
{
    if m < 12 && days >= days_in_month(y, m) {
        month_from(y, m + 1, (days - days_in_month(y, m)) as nat)
    } else {
        (m, days)
    }
}

/// The civil UTC instant `epoch` seconds after 1970-01-01T00:00:00Z.
pub open spec fn timestamp_of_epoch(epoch: nat) -> UtcTimestamp {
    let days = epoch / 86400;
    let rem = epoch % 86400;
    let yd = year_from(1970, days);
    let md = month_from(yd.0, 1, yd.1);
    UtcTimestamp {
        year: yd.0 as u64,
        month: md.0 as u64,
        day: (md.1 + 1) as u64,
        hour: (rem / 3600) as u64,
        minute: ((rem % 3600) / 60) as u64,
        second: ((rem % 3600) % 60) as u64,
    }
}

fn leap_year(y: u64) -> (r: bool)
    ensures
        r == is_leap_year(y as nat),
{
    y % 4 == 0 && (y % 100 != 0 || y % 400 == 0)
}

fn year_len(y: u64) -> (r: u64)
    ensures
        r == days_in_year(y as nat),
{
    if leap_year(y) {
        366
    } else {
        365
    }
}

fn month_len(y: u64, m: u64) -> (r: u64)
    ensures
        r == days_in_month(y as nat, m as nat),
{
    if m == 2 {
        if leap_year(y) {
            29
        } else {
            28
        }
    } else if m == 4 || m == 6 || m == 9 || m == 11 {
        30
    } else {
        31
    }
}

/// The months of a year hold exactly the days of the year.
proof fn lemma_months_cover_year(y: nat)
    ensures
        days_before_month(y, 13) == days_in_year(y),
{
    reveal_with_fuel(days_before_month, 14);
}

/// Converts Unix epoch seconds to the civil UTC instant they name.
/// The conversion is exact at second precision and loses nothing:
/// reading the civil fields back as epoch seconds gives the input.
pub fn unix_to_timestamptz(epoch: u64) -> (r: UtcTimestamp)
    ensures
        r == timestamp_of_epoch(epoch as nat),
        r.wf(),
        r.epoch() == epoch,
{
    let days_total = epoch / 86400;
    let rem = epoch % 86400;
    proof {
        vstd::arithmetic::div_mod::lemma_fundamental_div_mod(epoch as int, 86400);
    }

    let mut y: u64 = 1970;
    let mut days = days_total;
    while days >= year_len(y)
        invariant
            1970 <= y,
            365 * (y - 1970) <= days_total - days,
            days_before_year(y as nat) + days == days_total,
            year_from(1970, days_total as nat) == year_from(y as nat, days as nat),
            days_total == epoch / 86400,
        decreases days,
    {
        let len = year_len(y);
        proof {
            assert(year_from(y as nat, days as nat) == year_from(
                (y + 1) as nat,
                (days - len) as nat,
            ));
            assert(days_before_year((y + 1) as nat) == days_before_year(y as nat) + days_in_year(
                y as nat,
            ));
        }
        days = days - len;
        y = y + 1;
    }
    proof {
        assert(year_from(y as nat, days as nat) == (y as nat, days as nat));
    }

    let mut m: u64 = 1;
    let days_in_y = days;
    while m < 12 && days >= month_len(y, m)
        invariant
            1 <= m <= 12,
            days_before_month(y as nat, m as nat) + days == days_in_y,
            days_in_y < days_in_year(y as nat),
            month_from(y as nat, 1, days_in_y as nat) == month_from(y as nat, m as nat, days as nat),
        decreases 12 - m,
    {
        let len = month_len(y, m);
        proof {
            assert(month_from(y as nat, m as nat, days as nat) == month_from(
                y as nat,
                (m + 1) as nat,
                (days - len) as nat,
            ));
            assert(days_before_month(y as nat, (m + 1) as nat) == days_before_month(
                y as nat,
                m as nat,
            ) + days_in_month(y as nat, m as nat));
        }
        days = days - len;
        m = m + 1;
    }
    proof {
        if m == 12 && days >= days_in_month(y as nat, 12) {
            lemma_months_cover_year(y as nat);
            assert(days_before_month(y as nat, 13) == days_before_month(y as nat, 12)
                + days_in_month(y as nat, 12));
        }
        assert(days < days_in_month(y as nat, m as nat));
        assert(month_from(y as nat, m as nat, days as nat) == (m as nat, days as nat));
    }

    let hour = rem / 3600;
    let rem2 = rem % 3600;
    let minute = rem2 / 60;
    let second = rem2 % 60;
    proof {
        vstd::arithmetic::div_mod::lemma_fundamental_div_mod(rem as int, 3600);
        vstd::arithmetic::div_mod::lemma_fundamental_div_mod(rem2 as int, 60);
    }

    UtcTimestamp { year: y, month: m, day: days + 1, hour, minute, second }
}

/// The RFC 3339 text of a timestamp: zero-padded fields in the shape
/// `YYYY-MM-DDTHH:MM:SSZ`.
pub open spec fn rfc3339_chars(ts: UtcTimestamp) -> Seq<char> {
    pad_chars(ts.year as nat, 4) + seq!['-'] + pad_chars(ts.month as nat, 2) + seq!['-']
        + pad_chars(ts.day as nat, 2) + seq!['T'] + pad_chars(ts.hour as nat, 2) + seq![':']
        + pad_chars(ts.minute as nat, 2) + seq![':'] + pad_chars(ts.second as nat, 2) + seq!['Z']
}

/// Renders a timestamp as its RFC 3339 text.
pub fn rfc3339_text(ts: &UtcTimestamp) -> (r: String)
    ensures
        r@ == rfc3339_chars(*ts),
{
    proof {
        reveal_strlit("-");
        reveal_strlit("T");
        reveal_strlit(":");
        reveal_strlit("Z");
    }
    let mut s = String::new();
    push_pad(&mut s, ts.year, 4);
    s.append("-");
    push_pad(&mut s, ts.month, 2);
    s.append("-");
    push_pad(&mut s, ts.day, 2);
    s.append("T");
    push_pad(&mut s, ts.hour, 2);
    s.append(":");
    push_pad(&mut s, ts.minute, 2);
    s.append(":");
    push_pad(&mut s, ts.second, 2);
    s.append("Z");
    proof {
        assert(s@ =~= rfc3339_chars(*ts));
    }
    s
}

} // verus!
