//! Status icons, numbers and durations as text.

use crate::text::push_char;
use vstd::prelude::*;
use vstd::string::StringExecFns;

verus! {

pub const PAUSE: &'static str = "⏸";

pub const PLAY: &'static str = "▶️";

pub const FAILED: &'static str = "❌";

pub const GREEN_CHECK: &'static str = "✅";

pub const STOP: &'static str = "⏹";

pub const PAUSE_TOGGLE: &'static str = "⏯";

pub const GREY_EXCLAMATION: &'static str = "❕";

pub const FAST_FORWARD: &'static str = "⏩";

pub const ALARM: &'static str = "⏰";

/// The state of a pipeline or of a job.
#[derive(Clone, Copy, Debug, PartialEq, Eq, Structural)]
pub enum StatusState {
    Created,
    WaitingForResource,
    Preparing,
    Pending,
    Running,
    Success,
    Failed,
    Canceled,
    Skipped,
    Manual,
    Scheduled,
}

/// The icon that stands for a status.
pub open spec fn status_icon(status: StatusState) -> Seq<char> {
    match status {
        StatusState::Created => PAUSE@,
        StatusState::WaitingForResource => PAUSE@,
        StatusState::Preparing => PAUSE@,
        StatusState::Pending => PAUSE@,
        StatusState::Running => PLAY@,
        StatusState::Success => GREEN_CHECK@,
        StatusState::Failed => FAILED@,
        StatusState::Canceled => STOP@,
        StatusState::Skipped => FAST_FORWARD@,
        StatusState::Manual => PAUSE_TOGGLE@,
        StatusState::Scheduled => ALARM@,
    }
}

/// The icon of a status.
pub fn status_to_emoji(status: StatusState) -> (r: &'static str)
    ensures
        r@ == status_icon(status),
{
    match status {
        StatusState::Created => PAUSE,
        StatusState::WaitingForResource => PAUSE,
        StatusState::Preparing => PAUSE,
        StatusState::Pending => PAUSE,
        StatusState::Running => PLAY,
        StatusState::Success => GREEN_CHECK,
        StatusState::Failed => FAILED,
        StatusState::Canceled => STOP,
        StatusState::Skipped => FAST_FORWARD,
        StatusState::Manual => PAUSE_TOGGLE,
        StatusState::Scheduled => ALARM,
    }
}

/// The character of a decimal digit.
pub open spec fn digit_char(d: nat) -> char {
    seq!['0', '1', '2', '3', '4', '5', '6', '7', '8', '9'][d as int]
}

/// The decimal notation of `n`, without leading zeros.
pub open spec fn decimal(n: nat) -> Seq<char>
    decreases n,
{
    if n < 10 {
        seq![digit_char(n)]
    } else {
        decimal(n / 10).push(digit_char(n % 10))
    }
}

/// Appends the decimal notation of `n`.
pub fn push_decimal(s: &mut String, n: u64)
    ensures
        final(s)@ == old(s)@ + decimal(n as nat),
    decreases n,
{
    if n >= 10 {
        push_decimal(s, n / 10);
    }
    let d = n % 10;
    let c = if d == 0 {
        '0'
    } else if d == 1 {
        '1'
    } else if d == 2 {
        '2'
    } else if d == 3 {
        '3'
    } else if d == 4 {
        '4'
    } else if d == 5 {
        '5'
    } else if d == 6 {
        '6'
    } else if d == 7 {
        '7'
    } else if d == 8 {
        '8'
    } else {
        '9'
    };
    push_char(s, c);
    assert(s@ =~= old(s)@ + decimal(n as nat));
}

/// `n` of a unit: "1 hour", "2 hours".
pub open spec fn unit_text(n: nat, unit: Seq<char>) -> Seq<char> {
    decimal(n) + seq![' '] + unit + (if n == 1 {
        Seq::empty()
    } else {
        seq!['s']
    })
}

/// The non-zero hours, minutes and seconds of a duration, in that order.
pub open spec fn duration_parts(secs: nat) -> Seq<Seq<char>> {
    let h = secs / 3600;
    let m = (secs % 3600) / 60;
    let s = secs % 60;
    (if h > 0 {
        seq![unit_text(h, "hour"@)]
    } else {
        Seq::empty()
    }) + (if m > 0 {
        seq![unit_text(m, "minute"@)]
    } else {
        Seq::empty()
    }) + (if s > 0 {
        seq![unit_text(s, "second"@)]
    } else {
        Seq::empty()
    })
}

/// The pieces of `parts` with one space between each two.
pub open spec fn spaced(parts: Seq<Seq<char>>) -> Seq<char>
    decreases parts.len(),
{
    if parts.len() == 0 {
        Seq::empty()
    } else if parts.len() == 1 {
        parts[0]
    } else {
        spaced(parts.drop_last()) + seq![' '] + parts.last()
    }
}

/// A duration in seconds as words.
pub open spec fn duration_text(secs: nat) -> Seq<char> {
    if secs == 0 {
        "not started yet"@
    } else {
        spaced(duration_parts(secs))
    }
}

/// Appends `n` of `unit` as the next of the parts in `parts`.
fn push_part(s: &mut String, first: bool, n: u64, unit: &str, Ghost(parts): Ghost<Seq<Seq<char>>>)
    requires
        first <==> parts.len() == 0,
        old(s)@ == spaced(parts),
    ensures
        final(s)@ == spaced(parts.push(unit_text(n as nat, unit@))),
{
    let ghost next = parts.push(unit_text(n as nat, unit@));
    assert(next.drop_last() =~= parts);
    if !first {
        push_char(s, ' ');
    }
    push_decimal(s, n);
    push_char(s, ' ');
    s.append(unit);
    if n != 1 {
        push_char(s, 's');
    }
    assert(s@ =~= spaced(next));
}

/// A duration in seconds as words: "not started yet" for none, otherwise
/// its non-zero hours, minutes and seconds, each singular where it is one.
pub fn duration_to_string(secs: u64) -> (r: String)
    ensures
        r@ == duration_text(secs as nat),
{
    if secs == 0 {
        return String::from_str("not started yet");
    }
    let h = secs / 3600;
    let m = (secs % 3600) / 60;
    let sec = secs % 60;
    let mut out = String::new();
    let mut first = true;
    let ghost mut parts: Seq<Seq<char>> = Seq::empty();
    if h > 0 {
        push_part(&mut out, first, h, "hour", Ghost(parts));
        proof {
            parts = parts.push(unit_text(h as nat, "hour"@));
        }
        first = false;
    }
    if m > 0 {
        push_part(&mut out, first, m, "minute", Ghost(parts));
        proof {
            parts = parts.push(unit_text(m as nat, "minute"@));
        }
        first = false;
    }
    if sec > 0 {
        push_part(&mut out, first, sec, "second", Ghost(parts));
        proof {
            parts = parts.push(unit_text(sec as nat, "second"@));
        }
    }
    assert(parts =~= duration_parts(secs as nat));
    out
}

} // verus!
