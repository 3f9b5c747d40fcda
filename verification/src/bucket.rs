//! The keys of the hourly archives: one key for each hour, in the form
//! `YYYY-MM-DD-HH`, in UTC. A window of time is cut to whole hours on the
//! local clock before it is turned into instants.

use crate::text::{padded2, push_padded2, push_signed, signed_decimal};
use chrono::{DateTime, Datelike, Timelike};
use vstd::prelude::*;
use vstd::string::StringExecFns;

verus! {

/// The number of seconds in one hour.
pub const HOUR_SECS: i64 = 3600;

/// The year, month, day and hour in UTC of the instant that lies `secs`
/// seconds after the Unix epoch, as `chrono` computes them, or `None` where
/// `chrono` has no date for the instant.
pub uninterp spec fn utc_civil(secs: int) -> Option<(int, int, int, int)>;

/// Asks `chrono` for the date and hour in UTC of an instant, given in seconds
/// since the Unix epoch: `DateTime::from_timestamp`, then the year, the month,
/// the day of the month and the hour of the value it returns. The contract
/// only gives the answer the name `utc_civil`.
#[verifier::external_body]
fn utc_fields(secs: i64) -> (r: Option<(i32, u32, u32, u32)>)
    ensures
        utc_civil(secs as int) == match r {
            Some(c) => Some((c.0 as int, c.1 as int, c.2 as int, c.3 as int)),
            None => None,
        },
{
    match DateTime::from_timestamp(secs, 0) {
        Some(t) => Some((t.year(), t.month(), t.day(), t.hour())),
        None => None,
    }
}

/// The start of the hour that holds `secs`, where `secs` counts the seconds
/// on some clock.
pub open spec fn hour_floor(secs: int) -> int {
    secs - secs % 3600
}

/// The instant at which an hour of the local clock begins: the hour that
/// holds `clock`, the seconds that the local clock shows since it showed
/// midnight of the first day of 1970, where the local clock is `offset`
/// seconds ahead of UTC when that hour begins.
pub open spec fn local_hour_utc(clock: int, offset: int) -> int {
    hour_floor(clock) - offset
}

/// The key of the hour `hour` of the day `day` of the month `month` of the
/// year `year`.
pub open spec fn key_text(year: int, month: int, day: int, hour: int) -> Seq<char> {
    signed_decimal(year) + seq!['-'] + padded2(month as nat) + seq!['-'] + padded2(day as nat)
        + seq!['-'] + padded2(hour as nat)
}

/// The keys of the hours that start at `hour`, `hour + 3600` and so on, up to
/// the last that starts at `end` or before; the list ends early at an hour
/// for which there is no date.
pub open spec fn keys_from(hour: int, end: int) -> Seq<Seq<char>>
    decreases end - hour + 3600,
{
    if hour > end || hour < i64::MIN || hour > i64::MAX {
        Seq::empty()
    } else {
        match utc_civil(hour) {
            Some(c) => seq![key_text(c.0, c.1, c.2, c.3)] + keys_from(hour + 3600, end),
            None => Seq::empty(),
        }
    }
}

/// The keys of a window of time that begins at the instant `start`: the key
/// of the hour in UTC that holds `start`, of the one that holds the instant
/// an hour later, and so on up to the last instant that is not after `end`.
pub open spec fn hourly_key_texts(start: int, end: int) -> Seq<Seq<char>> {
    keys_from(start, end)
}

/// The start of the hour that holds `secs` on the clock that `secs` counts
/// on, or `None` where it lies before what 64 bits can count.
pub fn floor_to_hour(secs: i64) -> (r: Option<i64>)
    ensures
        match r {
            Some(h) => h == hour_floor(secs as int),
            None => hour_floor(secs as int) < i64::MIN,
        },
{
    let r: i64 = secs % HOUR_SECS;
    let past: i64 = if r < 0 {
        r + HOUR_SECS
    } else {
        r
    };
    secs.checked_sub(past)
}

/// The key of one hour.
pub fn bucket_key(year: i32, month: u32, day: u32, hour: u32) -> (key: String)
    ensures
        key@ == key_text(year as int, month as int, day as int, hour as int),
{
    let mut key = String::new();
    push_signed(&mut key, year as i64);
    key.push('-');
    push_padded2(&mut key, month);
    key.push('-');
    push_padded2(&mut key, day);
    key.push('-');
    push_padded2(&mut key, hour);
    assert(key@ =~= key_text(year as int, month as int, day as int, hour as int));
    key
}

/// The instant, in seconds since the Unix epoch, at which the hour of the
/// local clock that holds `clock` begins, where the local clock is `offset`
/// seconds ahead of UTC when that hour begins; `None` where 64 bits cannot
/// count it. Both ends of a window are cut to the hour in this way, on the
/// local clock, before they become instants.
pub fn local_hour_to_utc(clock: i64, offset: i32) -> (r: Option<i64>)
    ensures
        match r {
            Some(t) => t == local_hour_utc(clock as int, offset as int),
            None => local_hour_utc(clock as int, offset as int) < i64::MIN || local_hour_utc(
                clock as int,
                offset as int,
            ) > i64::MAX,
        },
{
    let r: i64 = clock % HOUR_SECS;
    let past: i64 = if r < 0 {
        r + HOUR_SECS
    } else {
        r
    };
    let t: i128 = clock as i128 - past as i128 - offset as i128;
    if t < i64::MIN as i128 || t > i64::MAX as i128 {
        None
    } else {
        Some(t as i64)
    }
}

/// The keys of the window of time from the instant `start` to the instant
/// `end`, both in seconds since the Unix epoch: one key for `start` and one
/// for every full hour after it up to `end`; none where `end` lies before
/// `start`.
pub fn hourly_keys(start: i64, end: i64) -> (keys: Vec<String>)
    ensures
        keys.deep_view() == hourly_key_texts(start as int, end as int),
{
    let mut keys: Vec<String> = Vec::new();
    let first = start;
    let mut hour: i64 = first;
    let mut open: bool = true;
    assert(keys.deep_view() + keys_from(hour as int, end as int) =~= keys_from(
        first as int,
        end as int,
    ));
    while open && hour <= end
        invariant
            keys_from(first as int, end as int) == keys.deep_view() + if open {
                keys_from(hour as int, end as int)
            } else {
                Seq::empty()
            },
        decreases
                if open {
                    end - hour + 3600
                } else {
                    0
                },
    {
        match utc_fields(hour) {
            Some(c) => {
                let key = bucket_key(c.0, c.1, c.2, c.3);
                let ghost before = keys.deep_view();
                let ghost this = hour as int;
                assert(keys_from(this, end as int) == seq![key@] + keys_from(
                    this + 3600,
                    end as int,
                ));
                keys.push(key);
                assert(keys.deep_view() =~= before.push(key@));
                match hour.checked_add(HOUR_SECS) {
                    Some(next) => {
                        hour = next;
                    },
                    None => {
                        open = false;
                        assert(keys_from(this + 3600, end as int) =~= Seq::empty());
                    },
                }
                assert(keys_from(first as int, end as int) =~= keys.deep_view() + if open {
                    keys_from(hour as int, end as int)
                } else {
                    Seq::empty()
                });
            },
            None => {
                open = false;
                assert(keys_from(first as int, end as int) =~= keys.deep_view());
            },
        }
    }
    assert(keys_from(first as int, end as int) =~= keys.deep_view());
    keys
}

/// The keys of a window of time, where both of its ends are given: `start`
/// and `end` are the instants at which the hours of the local clock that
/// hold the two ends of the window begin.
pub fn file_names(start: Option<i64>, end: Option<i64>) -> (names: Option<Vec<String>>)
    ensures
        match names {
            Some(keys) => start is Some && end is Some && keys.deep_view() == hourly_key_texts(
                start->0 as int,
                end->0 as int,
            ),
            None => start is None || end is None,
        },
{
    match (start, end) {
        (Some(s), Some(e)) => Some(hourly_keys(s, e)),
        _ => None,
    }
}

/// The keys to fetch: those of the window of time where both of its ends are
/// given, else the keys listed in `files`.
pub fn requested_keys(files: Vec<String>, start: Option<i64>, end: Option<i64>) -> (keys: Vec<
    String,
>)
    ensures
        keys.deep_view() == if start is Some && end is Some {
            hourly_key_texts(start->0 as int, end->0 as int)
        } else {
            files.deep_view()
        },
{
    match file_names(start, end) {
        Some(keys) => keys,
        None => files,
    }
}

/// The address from which the archive of `key` is downloaded.
pub open spec fn url_text(key: Seq<char>) -> Seq<char> {
    "https://papertrailapp.com/api/v1/archives/"@ + key + "/download"@
}

/// The name of the file that receives the archive of `key`: `.tsv` after the
/// key where the archive is decompressed, `.tsv.gz` where it is not.
pub open spec fn archive_name_text(key: Seq<char>, decompressed: bool) -> Seq<char> {
    if decompressed {
        key + ".tsv"@
    } else {
        key + ".tsv.gz"@
    }
}

/// The name of the comma-delimited file of `key`.
pub open spec fn csv_name_text(key: Seq<char>) -> Seq<char> {
    key + ".csv"@
}

/// The address from which the archive of `key` is downloaded.
pub fn download_url(key: &str) -> (url: String)
    ensures
        url@ == url_text(key@),
{
    let mut url = String::from_str("https://papertrailapp.com/api/v1/archives/");
    url.append(key);
    url.append("/download");
    url
}

/// The name of the file that receives the archive of `key`.
pub fn archive_name(key: &str, decompressed: bool) -> (name: String)
    ensures
        name@ == archive_name_text(key@, decompressed),
{
    let mut name = String::from_str(key);
    if decompressed {
        name.append(".tsv");
    } else {
        name.append(".tsv.gz");
    }
    name
}

/// The name of the comma-delimited file of `key`.
pub fn csv_name(key: &str) -> (name: String)
    ensures
        name@ == csv_name_text(key@),
{
    let mut name = String::from_str(key);
    name.append(".csv");
    name
}

} // verus!
