//! Timing of a request: the clock, the start mark and the text of the
//! duration.

use crate::text::{decimal, push_decimal};
use vstd::prelude::*;

verus! {

/// `std::time::SystemTime`, a reading of the system clock, carried as it
/// is.
#[verifier::external_type_specification]
#[verifier::external_body]
pub struct ExSystemTime(std::time::SystemTime);

/// `std::time::SystemTimeError`, the error of a clock that reads a time
/// before the one it is compared with, carried as it is.
#[verifier::external_type_specification]
#[verifier::external_body]
pub struct ExSystemTimeError(std::time::SystemTimeError);

/// `std::time::SystemTime::now`: the reading of the system clock. Nothing
/// is claimed of it.
#[verifier::external_body]
fn clock_now() -> (now: std::time::SystemTime) {
    std::time::SystemTime::now()
}

/// `std::time::SystemTime::duration_since`, from the Unix epoch: the time
/// elapsed up to `now`, or an error where `now` lies before the epoch.
/// Nothing is claimed of which.
#[verifier::external_body]
fn since_epoch(now: &std::time::SystemTime) -> (elapsed: Result<
    std::time::Duration,
    std::time::SystemTimeError,
>) {
    now.duration_since(std::time::UNIX_EPOCH)
}

/// `std::time::Duration::as_millis`: the whole milliseconds of a duration.
/// Nothing is claimed of the number.
#[verifier::external_body]
fn whole_millis(elapsed: &std::time::Duration) -> (millis: u128) {
    elapsed.as_millis()
}

/// Milliseconds since the Unix epoch by the system clock, which decides the
/// number: `millis_since_epoch` says what is returned for what it read.
pub fn unixtime_ms() -> (millis: u128) {
    let now = clock_now();
    let elapsed = match since_epoch(&now) {
        Ok(elapsed) => Some(whole_millis(&elapsed)),
        Err(_) => None,
    };
    millis_since_epoch(elapsed)
}

/// The milliseconds since the Unix epoch that a reading of the clock stands
/// for: the whole milliseconds of the time elapsed since the epoch, or zero
/// where the clock read a time before it and none has elapsed.
pub open spec fn epoch_millis(elapsed: Option<u128>) -> u128 {
    match elapsed {
        Some(millis) => millis,
        None => 0,
    }
}

/// The milliseconds since the Unix epoch, given the whole milliseconds that
/// the clock found elapsed since the epoch, or `None` where it read a time
/// before the epoch.
pub fn millis_since_epoch(elapsed: Option<u128>) -> (millis: u128)
    ensures
        millis == epoch_millis(elapsed),
{
    match elapsed {
        Some(millis) => millis,
        None => 0,
    }
}

/// The text of a duration of `total_ms` milliseconds: whole minutes, the
/// seconds of the last minute and the milliseconds of the last second, as
/// in `2m 5s 30ms`.
pub open spec fn mmssms_text(total_ms: nat) -> Seq<char> {
    decimal(total_ms / 60 / 1000) + seq!['m', ' '] + decimal((total_ms / 1000) % 60) + seq![
        's',
        ' ',
    ] + decimal(total_ms % 1000) + seq!['m', 's']
}

/// A duration in milliseconds as minutes, seconds and milliseconds.
pub fn mmssms(total_ms: u64) -> (text: String)
    ensures
        text@ == mmssms_text(total_ms as nat),
{
    let mins: u64 = total_ms / 60 / 1000;
    let secs: u64 = (total_ms / 1000) % 60;
    let ms: u64 = total_ms % 1000;
    proof {
        reveal_strlit("m ");
        reveal_strlit("s ");
        reveal_strlit("ms");
    }
    let mut text = String::new();
    push_decimal(&mut text, mins as u128);
    text.append("m ");
    push_decimal(&mut text, secs as u128);
    text.append("s ");
    push_decimal(&mut text, ms as u128);
    text.append("ms");
    assert("m "@ =~= seq!['m', ' ']);
    assert("s "@ =~= seq!['s', ' ']);
    assert("ms"@ =~= seq!['m', 's']);
    assert(text@ =~= mmssms_text(total_ms as nat));
    text
}

/// The start mark of the request being served.
pub struct Timer {
    start_ms: u64,
}

impl View for Timer {
    type V = nat;

    /// The start mark, in milliseconds since the Unix epoch.
    closed spec fn view(&self) -> nat {
        self.start_ms as nat
    }
}

impl Timer {
    /// A timer whose start mark is the epoch.
    pub fn new() -> (timer: Timer)
        ensures
            timer@ == 0,
    {
        Timer { start_ms: 0 }
    }

    /// The start mark, in milliseconds since the Unix epoch.
    pub fn start_ms(&self) -> (start: u64)
        ensures
            start == self@,
    {
        self.start_ms
    }

    /// Marks the arrival of a request at `now_ms`.
    pub fn on_request(&mut self, now_ms: u64)
        ensures
            final(self)@ == now_ms,
    {
        self.start_ms = now_ms;
    }

    /// The duration text for a response that leaves at `now_ms`; the start
    /// mark stays.
    pub fn on_response(&self, now_ms: u64) -> (duration: String)
        requires
            self@ <= now_ms,
        ensures
            duration@ == mmssms_text((now_ms - self@) as nat),
    {
        mmssms(now_ms - self.start_ms)
    }
}

} // verus!
