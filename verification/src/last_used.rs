//! The last-used record of a server: its eight-byte encoding and the rendering
//! of its age.

use vstd::prelude::*;
use crate::error::Error;
use crate::text::{decimal, from_chars, push_decimal};

verus! {

/// The stored value that means "never used".
pub const NEVER_USED: u64 = 0xffff_ffff_ffff_ffff;

pub const SECS_MINUTE: u64 = 60;

pub const SECS_HOUR: u64 = 3600;

pub const SECS_DAY: u64 = 86400;

/// A year of 365.2425 days.
pub const SECS_YEAR: u64 = 31556952;

/// What is known about the last use of a server.
#[derive(Debug)]
pub enum LastUsed {
    /// The record holds the "never used" value.
    Never,
    /// There is no record.
    Unknown,
    /// The age of the last use, rendered.
    Time(String),
}

/// The number that `bytes` encodes, least significant byte first.
pub open spec fn le_value(bytes: Seq<u8>) -> nat
    decreases bytes.len(),
{
    if bytes.len() == 0 {
        0
    } else {
        bytes[0] as nat + 256 * le_value(bytes.drop_first())
    }
}

/// The `i`-th byte of `n`, counting from the least significant.
pub open spec fn le_byte(n: nat, i: nat) -> u8
    decreases i,
{
    if i == 0 {
        (n % 256) as u8
    } else {
        le_byte(n / 256, (i - 1) as nat)
    }
}

/// The eight-byte little-endian encoding of `n`.
pub open spec fn le_bytes(n: nat) -> Seq<u8> {
    Seq::new(8, |i: int| le_byte(n, i as nat))
}

/// The granularity at which an age is rendered.
pub enum Tier {
    Seconds,
    Minutes,
    Hours,
    Days,
    Years,
}

/// The rank of a tier, from 0 for seconds to 4 for years.
pub open spec fn tier_rank(t: Tier) -> nat {
    match t {
        Tier::Seconds => 0,
        Tier::Minutes => 1,
        Tier::Hours => 2,
        Tier::Days => 3,
        Tier::Years => 4,
    }
}

pub open spec fn years_of(d: nat) -> nat {
    d / (SECS_YEAR as nat)
}

pub open spec fn days_of(d: nat) -> nat {
    (d % (SECS_YEAR as nat)) / (SECS_DAY as nat)
}

pub open spec fn hours_of(d: nat) -> nat {
    ((d % (SECS_YEAR as nat)) % (SECS_DAY as nat)) / (SECS_HOUR as nat)
}

pub open spec fn minutes_of(d: nat) -> nat {
    (((d % (SECS_YEAR as nat)) % (SECS_DAY as nat)) % (SECS_HOUR as nat)) / (SECS_MINUTE as nat)
}

pub open spec fn seconds_of(d: nat) -> nat {
    (((d % (SECS_YEAR as nat)) % (SECS_DAY as nat)) % (SECS_HOUR as nat)) % (SECS_MINUTE as nat)
}

/// The tier of an age of `d` seconds: that of its largest unit that is not zero.
pub open spec fn tier_of(d: nat) -> Tier {
    if years_of(d) > 0 {
        Tier::Years
    } else if days_of(d) > 0 {
        Tier::Days
    } else if hours_of(d) > 0 {
        Tier::Hours
    } else if minutes_of(d) > 0 {
        Tier::Minutes
    } else {
        Tier::Seconds
    }
}

/// A count followed by its unit letter.
pub open spec fn unit(n: nat, letter: char) -> Seq<char> {
    decimal(n).push(letter)
}

/// The rendering of an age of `d` seconds at tier `t`: every unit from that of
/// the tier down to seconds, separated by single spaces.
pub open spec fn render_at(t: Tier, d: nat) -> Seq<char> {
    let s = unit(seconds_of(d), 's');
    let m = unit(minutes_of(d), 'm') + seq![' '] + s;
    let h = unit(hours_of(d), 'h') + seq![' '] + m;
    let dd = unit(days_of(d), 'd') + seq![' '] + h;
    let y = unit(years_of(d), 'y') + seq![' '] + dd;
    match t {
        Tier::Seconds => s,
        Tier::Minutes => m,
        Tier::Hours => h,
        Tier::Days => dd,
        Tier::Years => y,
    }
}

/// The rendering of an age of `d` seconds.
pub open spec fn render(d: nat) -> Seq<char> {
    render_at(tier_of(d), d)
}

fn push_unit(out: &mut Vec<char>, n: u64, letter: char)
    ensures
        final(out)@ == old(out)@ + unit(n as nat, letter),
{
    push_decimal(out, n as u128);
    out.push(letter);
    assert(out@ =~= old(out)@ + unit(n as nat, letter));
}

/// Renders an age of `difference` seconds: the largest unit that is not zero
/// and every smaller unit down to seconds.
pub fn render_age(difference: u64) -> (s: String)
    ensures
        s@ == render(difference as nat),
{
    let years = difference / SECS_YEAR;
    let years_remainder = difference % SECS_YEAR;
    let days = years_remainder / SECS_DAY;
    let days_remainder = years_remainder % SECS_DAY;
    let hours = days_remainder / SECS_HOUR;
    let hours_remainder = days_remainder % SECS_HOUR;
    let minutes = hours_remainder / SECS_MINUTE;
    let seconds = hours_remainder % SECS_MINUTE;

    let mut out: Vec<char> = Vec::new();
    if years > 0 {
        push_unit(&mut out, years, 'y');
        out.push(' ');
    }
    if years > 0 || days > 0 {
        push_unit(&mut out, days, 'd');
        out.push(' ');
    }
    if years > 0 || days > 0 || hours > 0 {
        push_unit(&mut out, hours, 'h');
        out.push(' ');
    }
    if years > 0 || days > 0 || hours > 0 || minutes > 0 {
        push_unit(&mut out, minutes, 'm');
        out.push(' ');
    }
    push_unit(&mut out, seconds, 's');
    assert(out@ =~= render(difference as nat));
    from_chars(&out)
}

/// The eight bytes that record `timestamp`, least significant first.
pub fn encode_timestamp(timestamp: u64) -> (bytes: Vec<u8>)
    ensures
        bytes@ == le_bytes(timestamp as nat),
{
    let mut bytes: Vec<u8> = Vec::new();
    let mut rest: u64 = timestamp;
    let mut i: usize = 0;
    while i < 8
        invariant
            i <= 8,
            bytes@.len() == i,
            forall|k: int| 0 <= k < i ==> bytes@[k] == le_byte(timestamp as nat, k as nat),
            forall|k: nat| #[trigger] le_byte(rest as nat, k) == le_byte(timestamp as nat, k + i as nat),
        decreases 8 - i,
    {
        let b: u8 = (rest % 256) as u8;
        bytes.push(b);
        proof {
            assert(le_byte(rest as nat, 0) == b);
            assert forall|k: nat| #[trigger] le_byte((rest / 256) as nat, k) == le_byte(
                timestamp as nat,
                k + i as nat + 1,
            ) by {
                assert(le_byte(rest as nat, k + 1) == le_byte((rest / 256) as nat, k));
            }
        }
        rest = rest / 256;
        i = i + 1;
    }
    assert(bytes@ =~= le_bytes(timestamp as nat));
    bytes
}

/// Reads a last-used record: the number it encodes if it is eight bytes
/// long, nothing otherwise.
pub fn decode_timestamp(data: &[u8]) -> (timestamp: Option<u64>)
    ensures
        data@.len() == 8 ==> timestamp == Some(le_value(data@) as u64) && le_value(data@)
            <= u64::MAX,
        data@.len() != 8 ==> timestamp is None,
{
    if data.len() != 8 {
        return None;
    }
    let mut acc: u64 = 0;
    let mut i: usize = 8;
    let ghost mut bound: nat = 1;
    while i > 0
        invariant
            data@.len() == 8,
            i <= 8,
            acc == le_value(data@.subrange(i as int, 8)),
            acc < bound,
            bound == pow256((8 - i) as nat),
        decreases i,
    {
        i = i - 1;
        proof {
            lemma_pow256_bounds((8 - i - 1) as nat);
            assert(data@.subrange(i as int, 8).drop_first() =~= data@.subrange(i as int + 1, 8));
            bound = bound * 256;
        }
        acc = acc * 256 + data[i] as u64;
    }
    proof {
        assert(data@.subrange(0, 8) =~= data@);
        lemma_pow256_bounds(8);
    }
    Some(acc)
}

/// 256 to the power `k`.
pub open spec fn pow256(k: nat) -> nat
    decreases k,
{
    if k == 0 {
        1
    } else {
        256 * pow256((k - 1) as nat)
    }
}

proof fn lemma_pow256_bounds(k: nat)
    requires
        k <= 8,
    ensures
        pow256(k) <= 0x1_0000_0000_0000_0000,
        k < 8 ==> pow256(k) * 256 <= 0x1_0000_0000_0000_0000,
        pow256(k) >= 1,
{
    reveal_with_fuel(pow256, 10);
}

/// What `get_last_used` answers for the record `data` of `server`, read at
/// the time `now`.
pub open spec fn last_used_outcome(
    server: Seq<char>,
    data: Option<Seq<u8>>,
    now: Option<u64>,
    result: Result<LastUsed, Error>,
) -> bool {
    match data {
        None => result matches Ok(LastUsed::Unknown),
        Some(bytes) => if bytes.len() != 8 {
            result matches Err(Error::InvalidTimestampFile(name)) && name@ == server
        } else if le_value(bytes) == NEVER_USED {
            result matches Ok(LastUsed::Never)
        } else {
            match now {
                None => result matches Err(Error::TimeWentBackwards),
                Some(t) => result matches Ok(LastUsed::Time(text)) && text@ == render(
                    age(t as nat, le_value(bytes)),
                ),
            }
        },
    }
}

/// The seconds from `then` to `now`, zero if `then` lies ahead.
pub open spec fn age(now: nat, then: nat) -> nat {
    if now >= then {
        (now - then) as nat
    } else {
        0
    }
}

/// Tells when `server` was last used. `data` is the content of its last-used
/// record, `None` if there is no record; `now` is the clock in seconds since
/// the epoch, `None` if it reads a time before the epoch.
pub fn get_last_used(server: &str, data: Option<&[u8]>, now: Option<u64>) -> (result: Result<
    LastUsed,
    Error,
>)
    ensures
        last_used_outcome(
            server@,
            match data {
                Some(d) => Some(d@),
                None => None,
            },
            now,
            result,
        ),
{
    let data = match data {
        Some(data) => data,
        None => return Ok(LastUsed::Unknown),
    };
    let timestamp = match decode_timestamp(data) {
        Some(timestamp) => timestamp,
        None => return Err(Error::InvalidTimestampFile(server.to_owned())),
    };
    if timestamp == NEVER_USED {
        return Ok(LastUsed::Never);
    }
    let now_ts = match now {
        Some(now_ts) => now_ts,
        None => return Err(Error::TimeWentBackwards),
    };
    let difference = if now_ts >= timestamp {
        now_ts - timestamp
    } else {
        0
    };
    Ok(LastUsed::Time(render_age(difference)))
}

/// The record to write when a server is used at the time `now`: the encoded
/// clock, or the error of a clock that reads a time before the epoch. A clock
/// at the largest number of seconds writes the value that means "never
/// used", and the record is read as such.
pub fn save_last_used_now(now: Option<u64>) -> (result: Result<Vec<u8>, Error>)
    ensures
        match now {
            Some(t) => result matches Ok(bytes) && bytes@ == le_bytes(t as nat),
            None => result matches Err(Error::TimeWentBackwards),
        },
{
    match now {
        Some(t) => Ok(encode_timestamp(t)),
        None => Err(Error::TimeWentBackwards),
    }
}

/// The record of a server that was never used.
pub fn set_default_metadata() -> (bytes: Vec<u8>)
    ensures
        bytes@ == le_bytes(NEVER_USED as nat),
{
    encode_timestamp(NEVER_USED)
}

/// Decoding an encoded record gives the number back.
pub proof fn lemma_timestamp_roundtrip(n: nat)
    requires
        n <= u64::MAX,
    ensures
        le_bytes(n).len() == 8,
        le_value(le_bytes(n)) == n,
{
    lemma_le_value_of_bytes(n, 8);
    assert(Seq::new(8, |i: int| le_byte(n, i as nat)) =~= le_bytes(n));
    assert(pow256(8) == 0x1_0000_0000_0000_0000) by {
        reveal_with_fuel(pow256, 10);
    }
    vstd::arithmetic::div_mod::lemma_small_mod(n, pow256(8));
}

proof fn lemma_le_value_of_bytes(n: nat, k: nat)
    ensures
        le_value(Seq::new(k, |i: int| le_byte(n, i as nat))) == n % pow256(k),
    decreases k,
{
    let s = Seq::new(k, |i: int| le_byte(n, i as nat));
    if k > 0 {
        let t = Seq::new((k - 1) as nat, |i: int| le_byte(n / 256, i as nat));
        assert(s.drop_first() =~= t);
        lemma_le_value_of_bytes(n / 256, (k - 1) as nat);
        let p = pow256((k - 1) as nat);
        assert(p >= 1) by {
            lemma_pow256_positive((k - 1) as nat);
        }
        lemma_mod_step(n, p);
    }
}

proof fn lemma_pow256_positive(k: nat)
    ensures
        pow256(k) >= 1,
    decreases k,
{
    if k > 0 {
        lemma_pow256_positive((k - 1) as nat);
    }
}

proof fn lemma_mod_step(n: nat, p: nat)
    requires
        p >= 1,
    ensures
        n % 256 + 256 * ((n / 256) % p) == n % (256 * p),
{
    vstd::arithmetic::div_mod::lemma_breakdown(n as int, 256, p as int);
    assert(256 * p == p * 256) by (nonlinear_arith);
}

/// The count of the largest unit shown for an age of `d` seconds.
pub open spec fn leading_count(d: nat) -> nat {
    match tier_of(d) {
        Tier::Seconds => seconds_of(d),
        Tier::Minutes => minutes_of(d),
        Tier::Hours => hours_of(d),
        Tier::Days => days_of(d),
        Tier::Years => years_of(d),
    }
}

/// An age falls into exactly one tier, and which one is fixed by the unit
/// lengths alone: years from one year on, days from one day on, and so on down
/// to seconds.
pub proof fn lemma_tier_thresholds(d: nat)
    ensures
        tier_of(d) is Years <==> d >= SECS_YEAR,
        tier_of(d) is Days <==> SECS_DAY <= d < SECS_YEAR,
        tier_of(d) is Hours <==> SECS_HOUR <= d < SECS_DAY,
        tier_of(d) is Minutes <==> SECS_MINUTE <= d < SECS_HOUR,
        tier_of(d) is Seconds <==> d < SECS_MINUTE,
{
}

/// As a record ages, its rendering never moves to a smaller tier, and while it
/// stays in one tier the count of the largest unit never shrinks.
pub proof fn lemma_render_monotone(now: nat, newer: nat, older: nat)
    requires
        older <= newer,
    ensures
        age(now, newer) <= age(now, older),
        tier_rank(tier_of(age(now, newer))) <= tier_rank(tier_of(age(now, older))),
        tier_of(age(now, newer)) == tier_of(age(now, older)) ==> leading_count(age(now, newer))
            <= leading_count(age(now, older)),
{
    let a = age(now, newer);
    let b = age(now, older);
    lemma_tier_thresholds(a);
    lemma_tier_thresholds(b);
}

} // verus!
