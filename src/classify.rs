//! Bucket classification: the relative folder a file belongs in, by its
//! extension or by the month it was last modified.

use vstd::prelude::*;
use chrono::Datelike;
use crate::text::{
    chars_of, decimal, decimal_chars, ext_of, has_ext, lower_of, lowercase, pad_zeros, push_all,
    split_name, string_of, zero_padded,
};

verus! {

/// Which attribute of a file selects its bucket.
#[derive(Clone, Copy, Debug, PartialEq, Eq, Structural)]
pub enum Mode {
    /// One folder per lower-cased extension.
    Extension,
    /// One folder per year, holding one folder per month.
    Mtime,
}

/// A calendar month, in local time.
#[derive(Clone, Copy, Debug, PartialEq, Eq, Structural)]
pub struct YearMonth {
    pub year: i32,
    pub month: u32,
}

impl YearMonth {
    pub open spec fn wf(&self) -> bool {
        1 <= self.month <= 12
    }
}

/// Relies on `chrono::DateTime::from_timestamp`, `with_timezone(&Local)`,
/// `year` and `month`: the local calendar month of a Unix time, `None` when
/// the time is out of chrono's range. The month lies in 1..=12.
#[verifier::external_body]
fn local_month_of(secs: i64) -> (r: Option<YearMonth>)
    ensures
        r matches Some(ym) ==> ym.wf(),
{
    let utc = chrono::DateTime::from_timestamp(secs, 0)?;
    let local = utc.with_timezone(&chrono::Local);
    Some(YearMonth { year: local.year(), month: local.month() })
}

/// Relies on `chrono::Local::now`, `year` and `month`: the current local
/// calendar month. The month lies in 1..=12.
#[verifier::external_body]
fn current_month() -> (r: YearMonth)
    ensures
        r.wf(),
{
    let now = chrono::Local::now();
    YearMonth { year: now.year(), month: now.month() }
}

/// The month that buckets a file: the local month of its modification time
/// when that could be read and placed on the calendar, otherwise the
/// current month.
pub fn month_or_now(converted: Option<YearMonth>, now: YearMonth) -> (r: YearMonth)
    ensures
        r == match converted {
            Some(ym) => ym,
            None => now,
        },
{
    match converted {
        Some(ym) => ym,
        None => now,
    }
}

/// The local month in which a file was last modified, given its modification
/// time in seconds since the Unix epoch. Where that time is unknown or cannot
/// be placed on the calendar, the current month stands in for it (see
/// `month_or_now`). Both depend on the machine's clock and time zone.
pub fn modification_month(modified: Option<i64>) -> (r: YearMonth)
    ensures
        r.wf(),
{
    let converted = match modified {
        Some(secs) => local_month_of(secs),
        None => None,
    };
    month_or_now(converted, current_month())
}

/// The year as a folder name: four digits with leading zeros for years
/// 0 to 9999, otherwise a sign followed by at least four digits.
pub open spec fn year_text(y: int) -> Seq<char> {
    if 0 <= y <= 9999 {
        zero_padded(decimal(y as nat), 4)
    } else if y < 0 {
        seq!['-'] + zero_padded(decimal((-y) as nat), 4)
    } else {
        seq!['+'] + zero_padded(decimal(y as nat), 4)
    }
}

/// The month as a folder name: two digits.
pub open spec fn month_text(m: nat) -> Seq<char> {
    zero_padded(decimal(m), 2)
}

/// The key by which an extension bucket and the allow-list are matched: the
/// lower-cased extension, or `no_extension` when the name has none.
pub open spec fn ext_key(name: Seq<char>) -> Seq<char> {
    if has_ext(name) && ext_of(name).len() > 0 {
        lower_of(ext_of(name))
    } else {
        "no_extension"@
    }
}

/// The bucket of a file named `name` modified in `ym`, as folder names
/// below the root.
pub open spec fn bucket_spec(mode: Mode, name: Seq<char>, ym: YearMonth) -> Seq<Seq<char>> {
    match mode {
        Mode::Extension => seq![ext_key(name)],
        Mode::Mtime => seq![year_text(ym.year as int), month_text(ym.month as nat)],
    }
}

/// The views of a list of strings.
pub open spec fn views(v: Seq<String>) -> Seq<Seq<char>> {
    v.map_values(|s: String| s@)
}

/// Renders a year as `year_text` does.
pub fn year_name(y: i32) -> (r: String)
    ensures
        r@ == year_text(y as int),
{
    if 0 <= y && y <= 9999 {
        let d = decimal_chars(y as u64);
        string_of(&pad_zeros(&d, 4))
    } else {
        let mut v: Vec<char> = Vec::new();
        let mag: u64;
        if y < 0 {
            v.push('-');
            mag = (-(y as i64)) as u64;
        } else {
            v.push('+');
            mag = y as u64;
        }
        let d = pad_zeros(&decimal_chars(mag), 4);
        push_all(&mut v, &d);
        assert(y < 0 ==> v@ =~= seq!['-'] + zero_padded(decimal((-y) as nat), 4));
        assert(y > 9999 ==> v@ =~= seq!['+'] + zero_padded(decimal(y as nat), 4));
        string_of(&v)
    }
}

/// Renders a month as two digits.
pub fn month_name(m: u32) -> (r: String)
    ensures
        r@ == month_text(m as nat),
{
    string_of(&pad_zeros(&decimal_chars(m as u64), 2))
}

/// The extension key of a base name (see `ext_key`).
pub fn extension_key(name: &str) -> (r: String)
    ensures
        r@ == ext_key(name@),
{
    let chars = chars_of(name);
    let (_stem, ext) = split_name(&chars);
    match ext {
        Some(e) if e.len() > 0 => lowercase(string_of(&e).as_str()),
        _ => String::from_str("no_extension"),
    }
}

/// The bucket of a file, as folder names below the root: its extension key in
/// `Extension` mode, its year and two-digit month in `Mtime` mode.
pub fn classify(mode: Mode, name: &str, ym: YearMonth) -> (r: Vec<String>)
    ensures
        views(r@) == bucket_spec(mode, name@, ym),
{
    let mut r: Vec<String> = Vec::new();
    match mode {
        Mode::Extension => {
            r.push(extension_key(name));
        },
        Mode::Mtime => {
            r.push(year_name(ym.year));
            r.push(month_name(ym.month));
        },
    }
    assert(views(r@) =~= bucket_spec(mode, name@, ym));
    r
}

} // verus!
