//! The clock, and identifiers made by chance.
use vstd::prelude::*;

verus! {

// ---------------------------------------------------------------------------
// The clock
// ---------------------------------------------------------------------------
#[verifier::external_type_specification]
#[verifier::external_body]
pub struct ExSystemTime(std::time::SystemTime);

/// How long after the start of 1970 a time is, as
/// `std::time::SystemTime::duration_since` tells it; `None` for a time before it.
pub uninterp spec fn since_1970(time: std::time::SystemTime) -> Option<std::time::Duration>;

/// How many whole milliseconds a duration has, as
/// `std::time::Duration::as_millis` tells it.
pub uninterp spec fn millis_in(duration: std::time::Duration) -> u128;

/// `std::time::SystemTime::now`: whatever the clock says.
#[verifier::external_body]
fn time_now() -> (r: std::time::SystemTime)
{
    std::time::SystemTime::now()
}

/// `std::time::SystemTime::duration_since` with the start of 1970, which fails for
/// a time before it.
#[verifier::external_body]
fn duration_since_1970(time: std::time::SystemTime) -> (r: Option<std::time::Duration>)
    ensures
        r == since_1970(time),
{
    time.duration_since(std::time::UNIX_EPOCH).ok()
}

/// `std::time::Duration::as_millis`.
#[verifier::external_body]
fn duration_millis(duration: std::time::Duration) -> (r: u128)
    ensures
        r == millis_in(duration),
{
    duration.as_millis()
}

/// The last millisecond that a `chrono::DateTime` can tell: the end of the year
/// 262142.
pub const MAX_UTC_MILLIS: u128 = 8210266876799999;

/// `chrono::DateTime::<chrono::Utc>::from` a time, and its `timestamp_millis`: the
/// milliseconds from the start of 1970 to the time, as `duration_since` and
/// `as_millis` of the standard library count them.
#[verifier::external_body]
fn utc_millis(time: std::time::SystemTime) -> (r: i64)
    requires
        utc_timestamp_at(time) is Some,
    ensures
        Some(r) == timestamp_at(time),
{
    chrono::DateTime::<chrono::Utc>::from(time).timestamp_millis()
}

/// The milliseconds from the start of 1970 to a time; none for a time before it.
pub open spec fn timestamp_at(time: std::time::SystemTime) -> Option<i64> {
    match since_1970(time) {
        Some(d) => Some(millis_in(d) as i64),
        None => None,
    }
}

/// The milliseconds from the start of 1970 to a time; none for a time before it.
pub fn timestamp_of(time: std::time::SystemTime) -> (r: Option<i64>)
    ensures
        r == timestamp_at(time),
{
    match duration_since_1970(time) {
        Some(d) => {
            let millis: u128 = duration_millis(d);
            Some(millis as i64)
        },
        None => None,
    }
}

/// `now` is what the clock may say: the timestamp of some time.
pub open spec fn may_be_now(now: Option<i64>) -> bool {
    exists|time: std::time::SystemTime| now == #[trigger] timestamp_at(time)
}

/// The timestamp of the time that the clock says, in milliseconds; none where it
/// stands before 1970. Which time the clock says is not stated.
pub fn chrono_timestamp() -> (r: Option<i64>)
    ensures
        may_be_now(r),
{
    timestamp_of(time_now())
}

/// The timestamp of a time that has a date: one from 1970 to the year 262142.
pub open spec fn utc_timestamp_at(time: std::time::SystemTime) -> Option<i64> {
    match since_1970(time) {
        Some(d) => if millis_in(d) <= MAX_UTC_MILLIS {
            timestamp_at(time)
        } else {
            None
        },
        None => None,
    }
}

/// The timestamp of a time that has a date, in milliseconds.
pub fn utc_timestamp_of(time: std::time::SystemTime) -> (r: Option<i64>)
    ensures
        r == utc_timestamp_at(time),
{
    match duration_since_1970(time) {
        Some(d) => {
            if duration_millis(d) <= MAX_UTC_MILLIS {
                Some(utc_millis(time))
            } else {
                None
            }
        },
        None => None,
    }
}

/// The timestamp of the time that the clock says, in milliseconds; none where it
/// says one without a date. Which time the clock says is not stated.
pub fn get_current_timestamp() -> (r: Option<i64>)
    ensures
        exists|time: std::time::SystemTime| r == #[trigger] utc_timestamp_at(time),
{
    utc_timestamp_of(time_now())
}

// ---------------------------------------------------------------------------
// Identifiers
// ---------------------------------------------------------------------------
/// A lower-case hexadecimal digit.
pub open spec fn is_hex(c: char) -> bool {
    ('0' <= c && c <= '9') || ('a' <= c && c <= 'f')
}

/// The text of an identifier: 32 lower-case hexadecimal digits in groups of 8, 4,
/// 4, 4 and 12, with hyphens between.
pub open spec fn is_uuid_text(s: Seq<char>) -> bool {
    &&& s.len() == 36
    &&& forall|i: int|
        0 <= i < 36 ==> if i == 8 || i == 13 || i == 18 || i == 23 {
            #[trigger] s[i] == '-'
        } else {
            is_hex(s[i])
        }
}

/// The text of an identifier made by chance: its version is 4, and its variant one
/// of '8', '9', 'a' and 'b'.
pub open spec fn is_random_text(s: Seq<char>) -> bool {
    &&& is_uuid_text(s)
    &&& s[14] == '4'
    &&& s[19] == '8' || s[19] == '9' || s[19] == 'a' || s[19] == 'b'
}

/// `uuid::Uuid::new_v4`, written by its `Display`: digits by chance, but for the
/// version, which is 4, and the variant, one of '8', '9', 'a' and 'b'.
#[verifier::external_body]
fn random_uuid_text() -> (r: String)
    ensures
        is_random_text(r@),
{
    uuid::Uuid::new_v4().to_string()
}

/// `uuid::Uuid::nil`, written by its `Display`: all digits are zero.
#[verifier::external_body]
fn nil_uuid_text() -> (r: String)
    ensures
        r@ == "00000000-0000-0000-0000-000000000000"@,
{
    uuid::Uuid::nil().to_string()
}

/// An identifier.
pub struct UUID {
    pub value: String,
}

impl View for UUID {
    type V = Seq<char>;

    open spec fn view(&self) -> Seq<char> {
        self.value@
    }
}

impl UUID {
    /// An identifier made by chance.
    pub fn new_v4() -> (r: UUID)
        ensures
            is_random_text(r@),
    {
        UUID { value: random_uuid_text() }
    }

    /// The identifier whose digits are all zero.
    pub fn nil() -> (r: UUID)
        ensures
            r@ == "00000000-0000-0000-0000-000000000000"@,
    {
        UUID { value: nil_uuid_text() }
    }

    /// The text of the identifier.
    pub fn as_str(&self) -> (r: &str)
        ensures
            r@ == self@,
    {
        self.value.as_str()
    }

    /// The same identifier again.
    pub fn copy(&self) -> (r: UUID)
        ensures
            r == *self,
    {
        UUID { value: self.value.clone() }
    }
}

// ---------------------------------------------------------------------------
// Laws
// ---------------------------------------------------------------------------
/// A timestamp counts the whole milliseconds since 1970; before that there is none. The
/// two ways of telling it agree up to the year 262142.
pub proof fn timestamps_count_milliseconds(time: std::time::SystemTime, d: std::time::Duration)
    ensures
        since_1970(time) == Some(d) ==> timestamp_at(time) == Some(millis_in(d) as i64),
        since_1970(time) is None ==> timestamp_at(time) is None && utc_timestamp_at(time) is None,
        since_1970(time) == Some(d) && millis_in(d) <= 8210266876799999 ==> utc_timestamp_at(time)
            == timestamp_at(time),
        since_1970(time) == Some(d) && millis_in(d) > 8210266876799999 ==> utc_timestamp_at(time) is None,
{
}

/// Whatever the clock says is the timestamp of a time.
pub proof fn clock_says_a_time(now: Option<i64>)
    requires
        may_be_now(now),
    ensures
        exists|time: std::time::SystemTime| #[trigger] timestamp_at(time) == now,
        now is None ==> exists|time: std::time::SystemTime| #[trigger] since_1970(time) is None,
{
    let time = choose|time: std::time::SystemTime| now == #[trigger] timestamp_at(time);
    assert(timestamp_at(time) == now);
    if now is None {
        assert(since_1970(time) is None);
    }
}

/// The text of an identifier made by chance has 36 characters: digits, and hyphens in four
/// places; one of its digits is always 4, and one of four values.
pub proof fn identifiers_by_chance(s: Seq<char>, i: int)
    requires
        is_random_text(s),
    ensures
        s.len() == 36,
        s[8] == '-' && s[13] == '-' && s[18] == '-' && s[23] == '-',
        s[14] == '4',
        s[19] == '8' || s[19] == '9' || s[19] == 'a' || s[19] == 'b',
        0 <= i < 36 && i != 8 && i != 13 && i != 18 && i != 23 ==> ('0' <= s[i] && s[i] <= '9') || ('a'
            <= s[i] && s[i] <= 'f'),
{
}

}
