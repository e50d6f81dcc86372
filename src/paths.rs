//! Names of the transport's files.
//!
//! Paths are byte strings with `/` between components. The open file of a
//! local day lives at `<parent>/<YYYYMMDD>/<file name>`, and a file rotated
//! by size is renamed to `<stem>_<YYYYMMDD_HHMMSS>.<extension>` beside it.
use vstd::prelude::*;
use chrono::Datelike;
use vstd::slice::slice_subrange;
use crate::buf::append_all;
use crate::transport::{local_day, LOCAL_OFFSET_SECS, SECS_PER_DAY, TIME_BOUND};

verus! {

/// The calendar date (year, month, day) of day `days` counted from
/// 1970-01-01, as `chrono::NaiveDate::from_epoch_days` gives it.
pub uninterp spec fn civil_date_of(days: i32) -> (i32, u32, u32);

/// Relies on `chrono::NaiveDate::from_epoch_days` (1970-01-01 is day 0;
/// `None` only for dates outside years -262143 to 262142, so never for the
/// first 12725831 days) and on `Datelike::month` (1 to 12) and
/// `Datelike::day` (1 to 31) to read the date back.
#[verifier::external_body]
fn civil_date(days: i32) -> (r: Option<(i32, u32, u32)>)
    ensures
        r matches Some(v) ==> v == civil_date_of(days) && 1 <= v.1 <= 12 && 1 <= v.2 <= 31,
        0 <= days <= 12725830 ==> r is Some,
{
    chrono::NaiveDate::from_epoch_days(days).map(|d| (d.year(), d.month(), d.day()))
}

/// The ASCII digit of `n`, which is below ten.
pub open spec fn digit(n: int) -> u8 {
    (48 + n) as u8
}

/// `n` as two decimal digits.
pub open spec fn two_digits(n: int) -> Seq<u8> {
    seq![digit(n / 10), digit(n % 10)]
}

/// `n` as four decimal digits.
pub open spec fn four_digits(n: int) -> Seq<u8> {
    two_digits(n / 100) + two_digits(n % 100)
}

/// `YYYYMMDD` for a date.
pub open spec fn date_text(date: (i32, u32, u32)) -> Seq<u8> {
    four_digits(date.0 as int) + two_digits(date.1 as int) + two_digits(date.2 as int)
}

fn push_two_digits(out: &mut Vec<u8>, n: u32)
    requires
        n < 100,
    ensures
        final(out)@ == old(out)@ + two_digits(n as int),
{
    out.push((48 + n / 10) as u8);
    out.push((48 + n % 10) as u8);
    assert(final(out)@ =~= old(out)@ + two_digits(n as int));
}

/// `YYYYMMDD` of the local day `day`; `None` where the year does not have
/// four digits or the date is out of the calendar's range.
pub fn date_stamp(day: i64) -> (r: Option<Vec<u8>>)
    requires
        0 <= day < TIME_BOUND / SECS_PER_DAY + 1,
    ensures
        r is Some <==> 0 <= civil_date_of(day as i32).0 <= 9999,
        r matches Some(v) ==> v@ == date_text(civil_date_of(day as i32)),
{
    match civil_date(day as i32) {
        None => None,
        Some((y, m, d)) => {
            if y < 0 || y > 9999 {
                return None;
            }
            let mut out: Vec<u8> = Vec::new();
            push_two_digits(&mut out, (y / 100) as u32);
            push_two_digits(&mut out, (y % 100) as u32);
            push_two_digits(&mut out, m);
            push_two_digits(&mut out, d);
            assert(out@ =~= date_text((y, m, d)));
            Some(out)
        },
    }
}

/// Index of the last `b` in `s`, or -1.
pub open spec fn last_index(s: Seq<u8>, b: u8) -> int
    decreases s.len(),
{
    if s.len() == 0 {
        -1
    } else if s.last() == b {
        s.len() - 1
    } else {
        last_index(s.drop_last(), b)
    }
}

proof fn lemma_last_index_bounds(s: Seq<u8>, b: u8)
    ensures
        -1 <= last_index(s, b) < s.len(),
        last_index(s, b) >= 0 ==> s[last_index(s, b)] == b,
    decreases s.len(),
{
    if s.len() > 0 && s.last() != b {
        lemma_last_index_bounds(s.drop_last(), b);
    }
}

/// The index of the last `b` in `s`.
fn find_last(s: &[u8], b: u8) -> (r: Option<usize>)
    ensures
        r matches Some(i) ==> i == last_index(s@, b),
        r is None ==> last_index(s@, b) == -1,
{
    let mut i: usize = s.len();
    assert(s@.subrange(0, s@.len() as int) =~= s@);
    while i > 0
        invariant
            i <= s@.len(),
            last_index(s@, b) == last_index(s@.subrange(0, i as int), b),
        decreases i,
    {
        let ghost pre = s@.subrange(0, i as int);
        assert(pre.drop_last() =~= s@.subrange(0, i - 1));
        if s[i - 1] == b {
            return Some(i - 1);
        }
        i = i - 1;
    }
    assert(s@.subrange(0, 0) =~= Seq::<u8>::empty());
    None
}

/// The directory part of a path, with its trailing `/` (empty when the
/// path has no `/`).
pub open spec fn dir_prefix(path: Seq<u8>) -> Seq<u8> {
    path.subrange(0, last_index(path, 47) + 1)
}

/// The last component of a path.
pub open spec fn base_name(path: Seq<u8>) -> Seq<u8> {
    path.subrange(last_index(path, 47) + 1, path.len() as int)
}

/// `agent.log`, the file name used when a path has none.
pub open spec fn default_file_name() -> Seq<u8> {
    seq![97u8, 103u8, 101u8, 110u8, 116u8, 46u8, 108u8, 111u8, 103u8]
}

/// The file name of a path, or `agent.log` where it has none.
pub open spec fn file_name_or_default(path: Seq<u8>) -> Seq<u8> {
    if base_name(path).len() == 0 {
        default_file_name()
    } else {
        base_name(path)
    }
}

/// The path of the open file for the day named `stamp`:
/// `<parent>/<stamp>/<file name>`, reading the configured path without its
/// trailing `/` bytes.
pub open spec fn dated_path(base: Seq<u8>, stamp: Seq<u8>) -> Seq<u8> {
    let b = without_trailing_slashes(base);
    dir_prefix(b) + stamp + seq![47u8] + file_name_or_default(b)
}

/// A path with the `/` bytes at its end removed, as path components are
/// read (`/data/` names `data` inside `/`).
pub open spec fn without_trailing_slashes(path: Seq<u8>) -> Seq<u8>
    decreases path.len(),
{
    if path.len() > 0 && path.last() == 47 {
        without_trailing_slashes(path.drop_last())
    } else {
        path
    }
}

/// The length of `path` once the `/` bytes at its end are removed.
fn trimmed_len(path: &[u8]) -> (r: usize)
    ensures
        r <= path@.len(),
        path@.subrange(0, r as int) == without_trailing_slashes(path@),
{
    let mut n: usize = path.len();
    assert(path@.subrange(0, n as int) =~= path@);
    while n > 0 && path[n - 1] == 47
        invariant
            n <= path@.len(),
            without_trailing_slashes(path@) == without_trailing_slashes(path@.subrange(0, n as int)),
        decreases n,
    {
        assert(path@.subrange(0, n as int).drop_last() =~= path@.subrange(0, n - 1));
        n = n - 1;
    }
    n
}

fn default_name() -> (r: Vec<u8>)
    ensures
        r@ == default_file_name(),
{
    let r: Vec<u8> = vec![97u8, 103u8, 101u8, 110u8, 116u8, 46u8, 108u8, 111u8, 103u8];
    assert(r@ =~= default_file_name());
    r
}

/// Builds `<parent>/<stamp>/<file name>` from the configured path.
pub fn dated_file_path(base: &Vec<u8>, stamp: &Vec<u8>) -> (r: Vec<u8>)
    ensures
        r@ == dated_path(base@, stamp@),
{
    let n = trimmed_len(base.as_slice());
    let b = slice_subrange(base.as_slice(), 0, n);
    let k = find_last(b, 47);
    proof {
        lemma_last_index_bounds(b@, 47);
    }
    let total = b.len();
    assert(k matches Some(i) ==> i < total);
    let start: usize = match k {
        Some(i) => i + 1,
        None => 0,
    };
    let mut out: Vec<u8> = Vec::new();
    append_all(&mut out, slice_subrange(b, 0, start));
    append_all(&mut out, stamp.as_slice());
    out.push(47);
    let name = slice_subrange(b, start, b.len());
    if name.len() == 0 {
        let d = default_name();
        append_all(&mut out, d.as_slice());
    } else {
        append_all(&mut out, name);
    }
    assert(out@ =~= dated_path(base@, stamp@));
    out
}

/// The local `HHMMSS` of a timestamp.
pub open spec fn clock_text(t: int) -> Seq<u8> {
    let secs = (t + LOCAL_OFFSET_SECS) % (SECS_PER_DAY as int);
    two_digits(secs / 3600) + two_digits((secs % 3600) / 60) + two_digits(secs % 60)
}

/// `YYYYMMDD_HHMMSS` of a timestamp at the local offset; `None` where the
/// year does not have four digits.
pub fn time_stamp(now: i64) -> (r: Option<Vec<u8>>)
    requires
        0 <= now < TIME_BOUND,
    ensures
        r is Some <==> 0 <= civil_date_of(local_day(now as int) as i32).0 <= 9999,
        r matches Some(v) ==> v@ == date_text(civil_date_of(local_day(now as int) as i32)) + seq![95u8]
            + clock_text(now as int),
{
    let day = (now + LOCAL_OFFSET_SECS) / SECS_PER_DAY;
    match date_stamp(day) {
        None => None,
        Some(mut out) => {
            let secs = (now + LOCAL_OFFSET_SECS) % SECS_PER_DAY;
            out.push(95);
            push_two_digits(&mut out, (secs / 3600) as u32);
            push_two_digits(&mut out, ((secs % 3600) / 60) as u32);
            push_two_digits(&mut out, (secs % 60) as u32);
            assert(out@ =~= date_text(civil_date_of(local_day(now as int) as i32)) + seq![95u8]
                + clock_text(now as int));
            Some(out)
        },
    }
}

/// `.` as the start of an extension: the last dot of a name, unless it is
/// the name's first byte.
pub open spec fn ext_dot(name: Seq<u8>) -> int {
    if last_index(name, 46) > 0 {
        last_index(name, 46)
    } else {
        -1
    }
}

/// The name a file gets when rotated by size:
/// `<dir>/<stem>_<stamp>.<extension>`, with `txt` where the name has no
/// extension and no dot where the extension is empty.
pub open spec fn rotated_path(path: Seq<u8>, stamp: Seq<u8>) -> Seq<u8> {
    let name = base_name(path);
    let dot = ext_dot(name);
    let stem = if dot >= 0 { name.subrange(0, dot) } else { name };
    let ext = if dot >= 0 { name.subrange(dot + 1, name.len() as int) } else { seq![116u8, 120u8, 116u8] };
    dir_prefix(path) + stem + seq![95u8] + stamp + if ext.len() == 0 { Seq::empty() } else { seq![46u8] + ext }
}

/// Builds the name a file gets when rotated by size.
pub fn rotated_file_path(path: &Vec<u8>, stamp: &Vec<u8>) -> (r: Vec<u8>)
    ensures
        r@ == rotated_path(path@, stamp@),
{
    let k = find_last(path.as_slice(), 47);
    proof {
        lemma_last_index_bounds(path@, 47);
    }
    let total = path.len();
    assert(k matches Some(i) ==> i < total);
    let start: usize = match k {
        Some(i) => i + 1,
        None => 0,
    };
    let name = slice_subrange(path.as_slice(), start, path.len());
    assert(name@ == base_name(path@));
    let dot = find_last(name, 46);
    proof {
        lemma_last_index_bounds(name@, 46);
    }
    let mut out: Vec<u8> = Vec::new();
    append_all(&mut out, slice_subrange(path.as_slice(), 0, start));
    let (stem, ext_given) = match dot {
        Some(d) => if d > 0 {
            (slice_subrange(name, 0, d), Some(slice_subrange(name, d + 1, name.len())))
        } else {
            (name, None)
        },
        None => (name, None),
    };
    append_all(&mut out, stem);
    out.push(95);
    append_all(&mut out, stamp.as_slice());
    match ext_given {
        Some(e) => {
            if e.len() > 0 {
                out.push(46);
                append_all(&mut out, e);
            }
        },
        None => {
            out.push(46);
            out.push(116);
            out.push(120);
            out.push(116);
        },
    }
    assert(out@ =~= rotated_path(path@, stamp@));
    out
}

} // verus!
