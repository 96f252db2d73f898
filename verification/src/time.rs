//! "Last played" texts: how long ago a timestamp lies, in the coarsest unit.

use vstd::prelude::*;
use crate::text::{decimal, decimal_string};

verus! {

pub const MINUTE_SECS: i128 = 60;
pub const HOUR_SECS: i128 = 3600;
pub const DAY_SECS: i128 = 86400;
/// A month counts as thirty days.
pub const MONTH_SECS: i128 = 2592000;
/// A year counts as 365 days.
pub const YEAR_SECS: i128 = 31536000;

/// "`n` `unit` ago", with the unit in the plural unless `n` is one.
pub open spec fn ago_text(n: nat, unit: Seq<char>) -> Seq<char> {
    decimal(n) + seq![' '] + unit + (if n == 1 { seq![] } else { seq!['s'] }) + " ago"@
}

/// The text for a timestamp `seconds_ago` seconds in the past, or for none.
pub open spec fn relative_time_text(seconds_ago: Option<int>) -> Seq<char> {
    match seconds_ago {
        None => "Never played"@,
        Some(s) => if s < MINUTE_SECS {
            "Just now"@
        } else if s < HOUR_SECS {
            ago_text((s / (MINUTE_SECS as int)) as nat, "minute"@)
        } else if s < DAY_SECS {
            ago_text((s / (HOUR_SECS as int)) as nat, "hour"@)
        } else if s < MONTH_SECS {
            ago_text((s / (DAY_SECS as int)) as nat, "day"@)
        } else if s < YEAR_SECS {
            ago_text((s / (MONTH_SECS as int)) as nat, "month"@)
        } else {
            "Over a year ago"@
        },
    }
}

fn ago(n: u64, unit: &str) -> (r: String)
    ensures
        r@ == ago_text(n as nat, unit@),
{
    let mut s = decimal_string(n);
    s.append(" ");
    s.append(unit);
    if n != 1 {
        s.append("s");
    }
    s.append(" ago");
    proof {
        reveal_strlit(" ");
        reveal_strlit("s");
    }
    if n == 1 {
        assert(s@ =~= ago_text(n as nat, unit@));
    } else {
        assert(s@ =~= ago_text(n as nat, unit@));
    }
    s
}

/// The "last played" text for a timestamp `seconds_ago` seconds in the past.
pub fn relative_time_from(seconds_ago: Option<i128>) -> (r: String)
    ensures
        r@ == relative_time_text(match seconds_ago { Some(s) => Some(s as int), None => None }),
{
    match seconds_ago {
        None => String::from_str("Never played"),
        Some(s) => if s < MINUTE_SECS {
            String::from_str("Just now")
        } else if s < HOUR_SECS {
            ago((s / MINUTE_SECS) as u64, "minute")
        } else if s < DAY_SECS {
            ago((s / HOUR_SECS) as u64, "hour")
        } else if s < MONTH_SECS {
            ago((s / DAY_SECS) as u64, "day")
        } else if s < YEAR_SECS {
            ago((s / MONTH_SECS) as u64, "month")
        } else {
            String::from_str("Over a year ago")
        },
    }
}

/// The "last played" text of an instance last played at `last_played`, measured
/// at `now` (both in seconds since the Unix epoch).
pub fn format_relative_time(last_played: Option<i64>, now: i64) -> (r: String)
    ensures
        r@ == relative_time_text(match last_played { Some(t) => Some(now - t), None => None }),
{
    match last_played {
        None => relative_time_from(None),
        Some(t) => relative_time_from(Some((now as i128) - (t as i128))),
    }
}

} // verus!
