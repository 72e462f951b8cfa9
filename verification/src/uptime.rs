//! How long a container has been running, as a short text.
use vstd::prelude::*;
use crate::decimal::{decimal, push_decimal};
use crate::text::push_char;

verus! {

pub const SECONDS_PER_MINUTE: u64 = 60;

pub const SECONDS_PER_HOUR: u64 = 3600;

pub const SECONDS_PER_DAY: u64 = 86400;

/// Whole days in `delta` seconds.
pub open spec fn days_of(delta: nat) -> nat {
    delta / 86400
}

/// Whole hours in `delta` seconds beyond the whole days.
pub open spec fn hours_of(delta: nat) -> nat {
    (delta % 86400) / 3600
}

/// Whole minutes in `delta` seconds beyond the whole hours.
pub open spec fn minutes_of(delta: nat) -> nat {
    (delta % 3600) / 60
}

/// The text for a span of `delta` seconds: days, hours and minutes, leaving
/// out the leading units that are zero; nothing for a negative span.
pub open spec fn uptime_text(delta: int) -> Seq<char> {
    if delta < 0 {
        Seq::empty()
    } else {
        let d = delta as nat;
        let minutes = decimal(minutes_of(d)) + seq!['m'];
        let hours = decimal(hours_of(d)) + seq!['h', ' '];
        let days = decimal(days_of(d)) + seq!['d', ' '];
        if days_of(d) > 0 {
            days + hours + minutes
        } else if hours_of(d) > 0 {
            hours + minutes
        } else {
            minutes
        }
    }
}

fn format_span(delta: u128) -> (r: String)
    requires
        delta <= u64::MAX,
    ensures
        r@ == uptime_text(delta as int),
{
    let secs: u64 = delta as u64;
    let days: u64 = secs / SECONDS_PER_DAY;
    let hours: u64 = (secs % SECONDS_PER_DAY) / SECONDS_PER_HOUR;
    let minutes: u64 = (secs % SECONDS_PER_HOUR) / SECONDS_PER_MINUTE;
    let mut r = String::new();
    if days > 0 {
        push_decimal(&mut r, days);
        push_char(&mut r, 'd');
        push_char(&mut r, ' ');
    }
    if days > 0 || hours > 0 {
        push_decimal(&mut r, hours);
        push_char(&mut r, 'h');
        push_char(&mut r, ' ');
    }
    push_decimal(&mut r, minutes);
    push_char(&mut r, 'm');
    r
}

/// The text for a span of `delta` seconds.
pub fn format_uptime(delta: i64) -> (r: String)
    ensures
        r@ == uptime_text(delta as int),
{
    if delta < 0 {
        String::new()
    } else {
        format_span(delta as u128)
    }
}

/// The uptime shown for a container: the span from its start to now while it
/// runs and its start time is known, else nothing.
pub open spec fn uptime_shown(running: bool, now: int, started_at: Option<int>) -> Seq<char> {
    if running && started_at is Some {
        uptime_text(now - started_at->0)
    } else {
        Seq::empty()
    }
}

/// The uptime shown for a container; both times are Unix seconds, and
/// `started_at` is `None` where the runtime's start time could not be read.
pub fn uptime_since(running: bool, now: i64, started_at: Option<i64>) -> (r: String)
    ensures
        r@ == uptime_shown(
            running,
            now as int,
            match started_at {
                Some(s) => Some(s as int),
                None => None,
            },
        ),
{
    if !running {
        return String::new();
    }
    match started_at {
        Some(start) => {
            if now < start {
                String::new()
            } else {
                let span: u128 = (now as i128 - start as i128) as u128;
                format_span(span)
            }
        },
        None => String::new(),
    }
}

} // verus!
