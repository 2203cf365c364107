//! Utility functions for common operations like timestamps and formatting.

use chrono::TimeZone;
use chrono::Utc;
use std::time::Duration;
use std::time::SystemTime;
use std::time::SystemTimeError;
use std::time::UNIX_EPOCH;
use vstd::prelude::*;
use vstd::string::StringExecFns;

use crate::text::decimal;
use crate::text::digits_reversed;
use crate::text::push_decimal;
use crate::text::push_reversed;
use crate::text::signed_decimal;

verus! {

/// `std::time::SystemTime`, a reading of the system clock. Nothing of its
/// contents is known here; it is only handed on.
#[verifier::external_type_specification]
#[verifier::external_body]
pub struct ExSystemTime(SystemTime);

/// `std::time::SystemTimeError`, the error of `SystemTime::duration_since`.
/// Nothing of its contents is known here.
#[verifier::external_type_specification]
#[verifier::external_body]
pub struct ExSystemTimeError(SystemTimeError);

/// `SystemTime::now` reads the system clock. Nothing is claimed of the
/// time it returns.
pub assume_specification[ SystemTime::now ]() -> (now: SystemTime)
;

/// `Duration::as_secs` gives the whole seconds of a duration. Nothing is
/// claimed of their number.
pub assume_specification[ Duration::as_secs ](duration: &Duration) -> (secs: u64)
;

/// `SystemTime::duration_since` with `UNIX_EPOCH` as the earlier time: the
/// time that has passed since the epoch, or an error if `time` lies before
/// it. Nothing is claimed of which it is.
#[verifier::external_body]
fn since_unix_epoch(time: &SystemTime) -> (elapsed: Result<Duration, SystemTimeError>) {
    time.duration_since(UNIX_EPOCH)
}

/// The key with every character after the third replaced by `*`.
pub open spec fn masked(key: Seq<char>) -> Seq<char> {
    Seq::new(
        key.len(),
        |i: int|
            if i < 3 {
                key[i]
            } else {
                '*'
            },
    )
}

/// Masks an API key by replacing all but the first 3 characters with `*`.
///
/// Useful for logging without exposing full keys.
pub fn mask_api_key(api_key: &str) -> (text: String)
    ensures
        text@ == masked(api_key@),
{
    let mut text = String::new();
    let mut kept: usize = 0;
    for c in it: api_key.chars()
        invariant
            it.seq() == api_key@,
            kept == if it.index() < 3 {
                it.index()
            } else {
                3
            },
            text@ == masked(api_key@).take(it.index()),
    {
        if kept < 3 {
            text.push(c);
            kept += 1;
        } else {
            text.push('*');
        }
        assert(text@ =~= masked(api_key@).take(it.index() + 1));
    }
    assert(text@ =~= masked(api_key@));
    text
}

/// The UNIX timestamp for a reading of the clock: the whole seconds that
/// have passed since the epoch as a signed number, or zero where the clock
/// stood before the epoch.
pub fn timestamp_of(elapsed: Option<u64>) -> (timestamp: i64)
    ensures
        timestamp == match elapsed {
            Some(secs) => secs as i64,
            None => 0,
        },
        elapsed matches Some(secs) ==> (secs <= i64::MAX ==> timestamp == secs),
{
    match elapsed {
        Some(secs) => {
            assert(secs <= 0x7fff_ffff_ffff_ffff ==> secs as i64 == secs) by (bit_vector);
            secs as i64
        },
        None => 0,
    }
}

/// Returns the current UNIX timestamp in seconds (UTC).
pub fn timestamp_now() -> (timestamp: i64) {
    let now = SystemTime::now();
    match since_unix_epoch(&now) {
        Ok(elapsed) => timestamp_of(Some(elapsed.as_secs())),
        Err(_) => timestamp_of(None),
    }
}

/// Whether chrono has a date and time in UTC for a timestamp: a number of
/// seconds since the epoch and a number of nanoseconds into that second.
pub uninterp spec fn utc_datetime_exists(secs: i64, nanos: u32) -> bool;

/// The date and time of a timestamp in UTC as `DateTime::to_rfc3339`
/// writes it, such as `2015-05-15T00:00:00+00:00`.
pub uninterp spec fn rfc3339_text(secs: i64, nanos: u32) -> Seq<char>;

/// `Utc.timestamp_opt(secs, nanos).single()`: whether chrono makes a date
/// and time of the timestamp. Seconds out of chrono's range of years and
/// nanoseconds that fit no second give none; the epoch itself gives one.
#[verifier::external_body]
fn utc_timestamp_exists(secs: i64, nanos: u32) -> (exists: bool)
    ensures
        exists == utc_datetime_exists(secs, nanos),
        secs == 0 && nanos == 0 ==> exists,
{
    Utc.timestamp_opt(secs, nanos).single().is_some()
}

/// `DateTime::to_rfc3339` on the date and time that chrono makes of the
/// timestamp in UTC.
#[verifier::external_body]
fn utc_to_rfc3339(secs: i64, nanos: u32) -> (text: String)
    requires
        utc_datetime_exists(secs, nanos),
    ensures
        text@ == rfc3339_text(secs, nanos),
{
    Utc.timestamp_opt(secs, nanos).single().unwrap().to_rfc3339()
}

/// A date and time in UTC, held as its UNIX timestamp: the seconds since
/// the epoch and the nanoseconds into the second. Every value is one that
/// chrono has a date and time for.
#[derive(Debug, Clone, Copy, PartialEq, Eq)]
pub struct UtcDateTime {
    secs: i64,
    nanos: u32,
}

impl UtcDateTime {
    #[verifier::type_invariant]
    spec fn in_range(&self) -> bool {
        utc_datetime_exists(self.secs, self.nanos)
    }

    /// The seconds since the epoch.
    pub closed spec fn secs(&self) -> i64 {
        self.secs
    }

    /// The nanoseconds into the second.
    pub closed spec fn nanos(&self) -> u32 {
        self.nanos
    }

    /// The date and time of a timestamp, if there is one.
    pub fn from_timestamp(secs: i64, nanos: u32) -> (datetime: Option<UtcDateTime>)
        ensures
            match datetime {
                Some(dt) => utc_datetime_exists(secs, nanos) && dt.secs() == secs && dt.nanos()
                    == nanos,
                None => !utc_datetime_exists(secs, nanos),
            },
    {
        if utc_timestamp_exists(secs, nanos) {
            Some(UtcDateTime { secs, nanos })
        } else {
            None
        }
    }

    /// The epoch: midnight of 1 January 1970.
    pub fn epoch() -> (datetime: UtcDateTime)
        ensures
            datetime.secs() == 0,
            datetime.nanos() == 0,
    {
        // chrono is asked for the epoch, which it always has.
        let exists = utc_timestamp_exists(0, 0);
        assert(exists);
        UtcDateTime { secs: 0, nanos: 0 }
    }

    /// The seconds since the epoch.
    pub fn timestamp(&self) -> (secs: i64)
        ensures
            secs == self.secs(),
    {
        self.secs
    }

    /// The nanoseconds into the second.
    pub fn timestamp_subsec_nanos(&self) -> (nanos: u32)
        ensures
            nanos == self.nanos(),
    {
        self.nanos
    }
}

/// Converts a UNIX timestamp to a date and time in UTC.
///
/// A timestamp that is out of range gives the epoch.
pub fn timestamp_to_datetime(timestamp: i64) -> (datetime: UtcDateTime)
    ensures
        datetime.secs() == if utc_datetime_exists(timestamp, 0) {
            timestamp
        } else {
            0
        },
        datetime.nanos() == 0,
{
    match UtcDateTime::from_timestamp(timestamp, 0) {
        Some(datetime) => datetime,
        None => UtcDateTime::epoch(),
    }
}

/// Formats a date and time in UTC as an ISO 8601 string.
pub fn format_datetime_iso(dt: UtcDateTime) -> (text: String)
    ensures
        text@ == rfc3339_text(dt.secs(), dt.nanos()),
{
    proof {
        use_type_invariant(&dt);
    }
    utc_to_rfc3339(dt.secs, dt.nanos)
}

/// Words joined by single spaces.
pub open spec fn join_words(words: Seq<Seq<char>>) -> Seq<char>
    decreases words.len(),
{
    if words.len() == 0 {
        Seq::empty()
    } else if words.len() == 1 {
        words[0]
    } else {
        join_words(words.drop_last()) + seq![' '] + words.last()
    }
}

/// The words of a duration: the hours with an `h` if there are any, the
/// minutes with an `m` if there are any, and the seconds with an `s` if
/// there are any or if there is nothing else.
pub open spec fn duration_words(seconds: nat) -> Seq<Seq<char>> {
    let hours = seconds / 3600;
    let minutes = (seconds % 3600) / 60;
    let secs = seconds % 60;
    let h = if hours > 0 {
        seq![decimal(hours).push('h')]
    } else {
        seq![]
    };
    let m = if minutes > 0 {
        seq![decimal(minutes).push('m')]
    } else {
        seq![]
    };
    let s = if secs > 0 || (hours == 0 && minutes == 0) {
        seq![decimal(secs).push('s')]
    } else {
        seq![]
    };
    h + m + s
}

/// The texts of a vector of strings.
pub open spec fn texts_of(parts: Seq<String>) -> Seq<Seq<char>> {
    Seq::new(parts.len(), |i: int| parts[i]@)
}

/// A number followed by its unit.
fn number_with_unit(n: u64, unit: char) -> (word: String)
    ensures
        word@ == decimal(n as nat).push(unit),
{
    let mut word = String::new();
    push_decimal(&mut word, n);
    word.push(unit);
    assert(word@ =~= decimal(n as nat).push(unit));
    word
}

/// Joins the parts with single spaces.
fn join_with_spaces(parts: &Vec<String>) -> (text: String)
    ensures
        text@ == join_words(texts_of(parts@)),
{
    let mut text = String::new();
    let mut i: usize = 0;
    while i < parts.len()
        invariant
            i <= parts@.len(),
            text@ == join_words(texts_of(parts@).take(i as int)),
        decreases parts.len() - i,
    {
        let ghost done = texts_of(parts@).take(i as int);
        let ghost next = texts_of(parts@).take(i + 1);
        if i > 0 {
            text.push(' ');
        }
        text.append(parts[i].as_str());
        proof {
            assert(next.drop_last() =~= done);
            assert(next.last() == parts@[i as int]@);
            assert(text@ =~= join_words(next));
        }
        i += 1;
    }
    assert(texts_of(parts@).take(i as int) =~= texts_of(parts@));
    text
}

/// Formats a duration in seconds to a human-friendly format like
/// "1h 23m 45s". Hours, minutes and seconds that are zero are left out,
/// but a duration of zero is "0s".
pub fn format_duration_human(seconds: u64) -> (text: String)
    ensures
        text@ == join_words(duration_words(seconds as nat)),
{
    let hours = seconds / 3600;
    let minutes = (seconds % 3600) / 60;
    let secs = seconds % 60;

    let mut parts: Vec<String> = Vec::new();
    if hours > 0 {
        parts.push(number_with_unit(hours, 'h'));
    }
    if minutes > 0 {
        parts.push(number_with_unit(minutes, 'm'));
    }
    if secs > 0 || parts.len() == 0 {
        parts.push(number_with_unit(secs, 's'));
    }
    assert(texts_of(parts@) =~= duration_words(seconds as nat));
    join_with_spaces(&parts)
}

/// The text with a comma before every group of three characters counted
/// from its end.
pub open spec fn group_thousands(s: Seq<char>) -> Seq<char>
    decreases s.len(),
{
    if s.len() <= 3 {
        s
    } else {
        group_thousands(s.take(s.len() - 3)) + seq![','] + s.skip(s.len() - 3)
    }
}

/// Grouping a text with one more character in front: the character is
/// followed by a comma if the text behind it is made of full groups.
proof fn lemma_group_thousands_front(c: char, t: Seq<char>)
    ensures
        group_thousands(seq![c] + t) == if t.len() > 0 && t.len() % 3 == 0 {
            seq![c, ','] + group_thousands(t)
        } else {
            seq![c] + group_thousands(t)
        },
    decreases t.len(),
{
    let u = seq![c] + t;
    let k = t.len() as int;
    if k < 3 {
        assert(group_thousands(u) =~= seq![c] + group_thousands(t));
    } else if k == 3 {
        assert(u.take(1) =~= seq![c]);
        assert(u.skip(1) =~= t);
        assert(group_thousands(u.take(1)) == seq![c]);
        assert(group_thousands(u) =~= seq![c, ','] + group_thousands(t));
    } else {
        let head = t.take(k - 3);
        lemma_group_thousands_front(c, head);
        assert(u.take(k + 1 - 3) =~= seq![c] + head);
        assert(u.skip(k + 1 - 3) =~= t.skip(k - 3));
        if k % 3 == 0 {
            assert(group_thousands(u) =~= seq![c, ','] + group_thousands(t));
        } else {
            assert(group_thousands(u) =~= seq![c] + group_thousands(t));
        }
    }
}

/// Formats a number with commas as thousands separators.
///
/// The number is written in decimal, and a comma is put before every group
/// of three characters counted from the end. A minus sign counts as a
/// character of the text like the digits.
pub fn format_number(num: i64) -> (text: String)
    ensures
        text@ == group_thousands(signed_decimal(num as int)),
{
    let reversed: Vec<char> = if num < 0 {
        let magnitude: u64 = (-(num + 1)) as u64 + 1;
        let mut digits = digits_reversed(magnitude);
        let ghost before = digits@;
        digits.push('-');
        assert(digits@.reverse() =~= seq!['-'] + before.reverse());
        digits
    } else {
        digits_reversed(num as u64)
    };
    assert(reversed@.reverse() == signed_decimal(num as int));

    let mut result: Vec<char> = Vec::new();
    let mut count: usize = 0;
    assert(reversed@.take(0).reverse() =~= Seq::<char>::empty());
    while count < reversed.len()
        invariant
            count <= reversed@.len(),
            result@.reverse() == group_thousands(reversed@.take(count as int).reverse()),
        decreases reversed.len() - count,
    {
        let ghost grouped = result@;
        let ghost seen = reversed@.take(count as int).reverse();
        let c = reversed[count];
        if count > 0 && count % 3 == 0 {
            result.push(',');
        }
        result.push(c);
        proof {
            lemma_group_thousands_front(c, seen);
            assert(reversed@.take(count + 1).reverse() =~= seq![c] + seen);
            if count > 0 && count % 3 == 0 {
                assert(result@.reverse() =~= seq![c, ','] + grouped.reverse());
            } else {
                assert(result@.reverse() =~= seq![c] + grouped.reverse());
            }
        }
        count += 1;
    }
    assert(reversed@.take(count as int) =~= reversed@);

    // Reverse the result to get the correct order
    let mut text = String::new();
    push_reversed(&mut text, &result);
    assert(text@ =~= result@.reverse());
    text
}

} // verus!
