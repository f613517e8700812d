//! Choice of the current log file and of the older log files to compress.
//!
//! The file system is read by the caller: the functions here take the names
//! found in the log directory and return what to create and what to
//! compress.

use vstd::prelude::*;
use crate::text::{
    decimal, has_prefix, last_dot, zero_padded, contains_char, find_last_dot, lemma_last_dot_bounds,
    push_decimal, push_zero_padded, starts_with, texts,
};

verus! {

/// Highest number that is appended to a log file name of one day.
pub const MAX_LOGFILE_NUMBER: u64 = 10000;

/// A calendar date, as used in log file names.
#[derive(Debug, Clone, Copy, PartialEq, Eq, Structural)]
pub struct LogDate {
    pub year: u16,
    pub month: u8,
    pub day: u8,
}

impl LogDate {
    pub open spec fn wf(self) -> bool {
        self.year <= 9999 && 1 <= self.month <= 12 && 1 <= self.day <= 31
    }

    /// A date from its year, month and day; `None` where one of them is out
    /// of range.
    pub fn new(year: i32, month: i32, day: i32) -> (r: Option<LogDate>)
        ensures
            match r {
                Some(d) => d.wf() && d.year == year && d.month == month && d.day == day,
                None => !(0 <= year <= 9999 && 1 <= month <= 12 && 1 <= day <= 31),
            },
    {
        if 0 <= year && year <= 9999 && 1 <= month && month <= 12 && 1 <= day && day <= 31 {
            Some(LogDate { year: year as u16, month: month as u8, day: day as u8 })
        } else {
            None
        }
    }
}

/// A date written as `YYYY-MM-DD`.
pub open spec fn date_text(d: LogDate) -> Seq<char> {
    zero_padded(d.year as nat, 4) + seq!['-'] + zero_padded(d.month as nat, 2) + seq!['-']
        + zero_padded(d.day as nat, 2)
}

/// Writes a date as `YYYY-MM-DD`.
pub fn format_date(d: &LogDate) -> (r: String)
    ensures
        r@ == date_text(*d),
{
    let mut out = String::new();
    push_zero_padded(&mut out, d.year as u64, 4);
    proof {
        reveal_strlit("-");
    }
    out.append("-");
    push_zero_padded(&mut out, d.month as u64, 2);
    out.append("-");
    push_zero_padded(&mut out, d.day as u64, 2);
    out
}

/// Why no log file could be chosen.
#[derive(Debug, Clone, Copy, PartialEq, Eq, Structural)]
pub enum RotationError {
    /// The base file name holds a directory separator, or has no extension.
    InvalidBaseName,
    /// Every numbered log file name of the day is taken.
    TooManyLogFiles,
    /// The current date cannot be written in a log file name.
    DateOutOfRange,
}

pub open spec fn is_separator(c: char) -> bool {
    c == '/' || c == '\\'
}

/// Stem and extension of a base file name: the text before and after its
/// last dot, where that dot is not the first character.
pub open spec fn split_base_spec(base: Seq<char>) -> Option<(Seq<char>, Seq<char>)> {
    let k = last_dot(base);
    if base.contains('/') || base.contains('\\') || k <= 0 || base == seq!['.', '.'] {
        None
    } else {
        Some((base.subrange(0, k), base.subrange(k + 1, base.len() as int)))
    }
}

/// Stem of a valid base file name.
pub open spec fn base_stem(base: Seq<char>) -> Seq<char> {
    match split_base_spec(base) {
        Some((stem, _)) => stem,
        None => Seq::empty(),
    }
}

/// Extension of a valid base file name.
pub open spec fn base_ext(base: Seq<char>) -> Seq<char> {
    match split_base_spec(base) {
        Some((_, ext)) => ext,
        None => Seq::empty(),
    }
}

/// Extension of a file name: the text after its last dot, where that dot is
/// not the first character.
pub open spec fn extension_spec(name: Seq<char>) -> Option<Seq<char>> {
    let k = last_dot(name);
    if k <= 0 {
        None
    } else {
        Some(name.subrange(k + 1, name.len() as int))
    }
}

/// Name of the log file of day `date` with number `n` (none for 0).
pub open spec fn candidate_name(stem: Seq<char>, ext: Seq<char>, date: LogDate, n: nat) -> Seq<char> {
    if n == 0 {
        stem + seq!['_'] + date_text(date) + seq!['.'] + ext
    } else {
        stem + seq!['_'] + date_text(date) + seq!['.'] + decimal(n) + seq!['.'] + ext
    }
}

/// Name of the compressed form of a file.
pub open spec fn compressed_name(name: Seq<char>) -> Seq<char> {
    name + seq!['.', 'g', 'z']
}

/// A name is taken where it, or its compressed form, is in the directory.
pub open spec fn is_taken(names: Seq<Seq<char>>, name: Seq<char>) -> bool {
    names.contains(name) || names.contains(compressed_name(name))
}

/// The number of the first log file name of the day that is free.
pub open spec fn first_free(names: Seq<Seq<char>>, stem: Seq<char>, ext: Seq<char>, date: LogDate, n: nat) -> bool {
    n <= MAX_LOGFILE_NUMBER && !is_taken(names, candidate_name(stem, ext, date, n))
        && forall|m: nat| m < n ==> is_taken(names, #[trigger] candidate_name(stem, ext, date, m))
}

/// Every log file name of the day is taken.
pub open spec fn all_taken(names: Seq<Seq<char>>, stem: Seq<char>, ext: Seq<char>, date: LogDate) -> bool {
    forall|m: nat| m <= MAX_LOGFILE_NUMBER ==> is_taken(names, #[trigger] candidate_name(stem, ext, date, m))
}

/// Splits a base file name into stem and extension.
pub fn split_base_filename(base: &str) -> (r: Result<(String, String), RotationError>)
    ensures
        match split_base_spec(base@) {
            Some((stem, ext)) => r matches Ok((s, e)) && s@ == stem && e@ == ext,
            None => r == Err::<(String, String), RotationError>(RotationError::InvalidBaseName),
        },
{
    if contains_char(base, '/') || contains_char(base, '\\') {
        return Err(RotationError::InvalidBaseName);
    }
    let len = base.unicode_len();
    proof {
        lemma_last_dot_bounds(base@);
    }
    match find_last_dot(base) {
        None => Err(RotationError::InvalidBaseName),
        Some(k) => {
            if k == 0 {
                return Err(RotationError::InvalidBaseName);
            }
            if len == 2 && base.get_char(0) == '.' && base.get_char(1) == '.' {
                assert(base@ =~= seq!['.', '.']);
                return Err(RotationError::InvalidBaseName);
            }
            let stem = String::from_str(base.substring_char(0, k));
            let ext = String::from_str(base.substring_char(k + 1, len));
            Ok((stem, ext))
        },
    }
}

/// Whether `name` is one of `names`.
fn is_listed(names: &Vec<String>, name: &String) -> (r: bool)
    ensures
        r == texts(names@).contains(name@),
{
    let mut i: usize = 0;
    while i < names.len()
        invariant
            i <= names.len(),
            forall|k: int| 0 <= k < i ==> names@[k]@ != name@,
        decreases names.len() - i,
    {
        if names[i] == *name {
            assert(texts(names@)[i as int] == name@);
            return true;
        }
        i = i + 1;
    }
    assert forall|k: int| 0 <= k < texts(names@).len() implies texts(names@)[k] != name@ by {
        assert(texts(names@)[k] == names@[k]@);
    }
    false
}

/// Builds the name of the log file of day `date` with number `n`.
pub fn build_candidate_name(stem: &str, ext: &str, date: &String, n: u64) -> (r: String)
    ensures
        r@ == stem@ + seq!['_'] + date@ + seq!['.'] + (if n == 0 { Seq::empty() } else { decimal(n as nat) + seq!['.'] }) + ext@,
{
    let mut out = String::from_str(stem);
    proof {
        reveal_strlit("_");
        reveal_strlit(".");
    }
    out.append("_");
    out.append(date.as_str());
    out.append(".");
    if n != 0 {
        push_decimal(&mut out, n);
        out.append(".");
    }
    out.append(ext);
    assert(out@ =~= stem@ + seq!['_'] + date@ + seq!['.'] + (if n == 0 { Seq::empty() } else { decimal(n as nat) + seq!['.'] }) + ext@);
    out
}

/// Builds the name of the compressed form of a file.
pub fn build_compressed_name(name: &String) -> (r: String)
    ensures
        r@ == compressed_name(name@),
{
    proof {
        reveal_strlit(".gz");
    }
    let r = name.clone().concat(".gz");
    assert(r@ =~= compressed_name(name@));
    r
}

/// Chooses the number of the current log file of day `date`: the first one
/// whose name is free, both plain and compressed.
pub fn choose_log_number(names: &Vec<String>, stem: &str, ext: &str, date: &LogDate) -> (r: Result<u64, RotationError>)
    ensures
        match r {
            Ok(n) => first_free(texts(names@), stem@, ext@, *date, n as nat),
            Err(e) => e == RotationError::TooManyLogFiles && all_taken(texts(names@), stem@, ext@, *date),
        },
{
    let date_str = format_date(date);
    let mut n: u64 = 0;
    while n <= MAX_LOGFILE_NUMBER
        invariant
            date_str@ == date_text(*date),
            n <= MAX_LOGFILE_NUMBER + 1,
            forall|m: nat| m < n ==> is_taken(texts(names@), #[trigger] candidate_name(stem@, ext@, *date, m)),
        decreases MAX_LOGFILE_NUMBER + 1 - n,
    {
        let name = build_candidate_name(stem, ext, &date_str, n);
        assert(name@ =~= candidate_name(stem@, ext@, *date, n as nat));
        let gz = build_compressed_name(&name);
        if !is_listed(names, &name) && !is_listed(names, &gz) {
            return Ok(n);
        }
        n = n + 1;
    }
    Err(RotationError::TooManyLogFiles)
}

/// Relies on jiff::Zoned::now, with its year, month and day: the date of now
/// in the system time zone. jiff keeps the year in -9999..=9999, the month in
/// 1..=12 and the day in 1..=31 (it panics only where the system clock lies
/// outside of the range it can represent).
#[verifier::external_body]
fn today() -> (r: (i16, i8, i8))
    ensures
        -9999 <= r.0 <= 9999,
        1 <= r.1 <= 12,
        1 <= r.2 <= 31,
{
    let now = jiff::Zoned::now();
    (now.year(), now.month(), now.day())
}

/// An entry of the log directory.
pub struct DirEntry {
    pub name: String,
    pub is_file: bool,
}

/// One older log file to compress: `source` becomes `target`, after an
/// existing `target` is removed where `replace_target` is set.
#[derive(Debug)]
pub struct ArchiveStep {
    pub source: String,
    pub target: String,
    pub replace_target: bool,
}

/// What a rotation does: the current log file to write, and the older log
/// files to compress, in directory order.
#[derive(Debug)]
pub struct RotationPlan {
    pub current: String,
    pub archive: Vec<ArchiveStep>,
}

pub open spec fn entry_names(entries: Seq<DirEntry>) -> Seq<Seq<char>> {
    entries.map_values(|e: DirEntry| e.name@)
}

/// An entry is compressed where it is a file with the base extension whose
/// name starts with the base stem, and is not the current log file.
pub open spec fn is_archived(e: DirEntry, stem: Seq<char>, ext: Seq<char>, current: Seq<char>) -> bool {
    e.is_file && extension_spec(e.name@) == Some(ext) && has_prefix(e.name@, stem) && e.name@ != current
}

pub open spec fn step_view(s: ArchiveStep) -> (Seq<char>, Seq<char>, bool) {
    (s.source@, s.target@, s.replace_target)
}

/// The archive steps for the entries, in their order.
pub open spec fn archive_spec(
    entries: Seq<DirEntry>,
    all: Seq<Seq<char>>,
    stem: Seq<char>,
    ext: Seq<char>,
    current: Seq<char>,
) -> Seq<(Seq<char>, Seq<char>, bool)>
    decreases entries.len(),
{
    if entries.len() == 0 {
        Seq::empty()
    } else {
        let rest = archive_spec(entries.drop_last(), all, stem, ext, current);
        let e = entries.last();
        if is_archived(e, stem, ext, current) {
            rest.push((e.name@, compressed_name(e.name@), all.contains(compressed_name(e.name@))))
        } else {
            rest
        }
    }
}

/// What a rotation decides for a base file name, a date and the entries of
/// the log directory.
pub open spec fn plan_spec(base: Seq<char>, date: LogDate, entries: Seq<DirEntry>, r: Result<RotationPlan, RotationError>) -> bool {
    match split_base_spec(base) {
        None => r == Err::<RotationPlan, RotationError>(RotationError::InvalidBaseName),
        Some((stem, ext)) => {
            let names = entry_names(entries);
            match r {
                Ok(plan) => exists|n: nat| #[trigger] first_free(names, stem, ext, date, n)
                    && plan.current@ == candidate_name(stem, ext, date, n)
                    && plan.archive@.map_values(|s: ArchiveStep| step_view(s))
                        == archive_spec(entries, names, stem, ext, plan.current@),
                Err(e) => e == RotationError::TooManyLogFiles && all_taken(names, stem, ext, date),
            }
        },
    }
}

fn extension_matches(name: &String, ext: &String) -> (r: bool)
    ensures
        r == (extension_spec(name@) == Some(ext@)),
{
    let s = name.as_str();
    let len = s.unicode_len();
    proof {
        lemma_last_dot_bounds(s@);
    }
    match find_last_dot(s) {
        None => false,
        Some(k) => {
            if k == 0 {
                return false;
            }
            let e = String::from_str(s.substring_char(k + 1, len));
            e == *ext
        },
    }
}

/// Chooses the current log file for base file name `base` on day `date`, and
/// the older log files to compress, from the entries of the log directory.
pub fn plan_rotation(base: &str, date: &LogDate, entries: &Vec<DirEntry>) -> (r: Result<RotationPlan, RotationError>)
    ensures
        plan_spec(base@, *date, entries@, r),
{
    let (stem, ext) = match split_base_filename(base) {
        Err(e) => return Err(e),
        Ok(p) => p,
    };
    let mut names: Vec<String> = Vec::new();
    let mut i: usize = 0;
    while i < entries.len()
        invariant
            i <= entries.len(),
            names@.len() == i,
            texts(names@) == entry_names(entries@.subrange(0, i as int)),
        decreases entries.len() - i,
    {
        let ghost before = names@;
        names.push(entries[i].name.clone());
        assert(names@ == before.push(entries@[i as int].name));
        assert forall|k: int| 0 <= k < names@.len() implies #[trigger] texts(names@)[k]
            == entry_names(entries@.subrange(0, i as int + 1))[k] by {
            if k < i {
                assert(texts(before)[k] == entry_names(entries@.subrange(0, i as int))[k]);
            }
        }
        assert(texts(names@) =~= entry_names(entries@.subrange(0, i as int + 1)));
        i = i + 1;
    }
    assert(entries@.subrange(0, entries.len() as int) =~= entries@);
    let n = match choose_log_number(&names, stem.as_str(), ext.as_str(), date) {
        Err(e) => return Err(e),
        Ok(n) => n,
    };
    let date_str = format_date(date);
    let current = build_candidate_name(stem.as_str(), ext.as_str(), &date_str, n);
    assert(current@ =~= candidate_name(stem@, ext@, *date, n as nat));
    let ghost all = entry_names(entries@);
    let mut archive: Vec<ArchiveStep> = Vec::new();
    let mut j: usize = 0;
    while j < entries.len()
        invariant
            j <= entries.len(),
            texts(names@) == all,
            all == entry_names(entries@),
            archive@.map_values(|s: ArchiveStep| step_view(s))
                == archive_spec(entries@.subrange(0, j as int), all, stem@, ext@, current@),
        decreases entries.len() - j,
    {
        let e = &entries[j];
        assert(entries@.subrange(0, j as int + 1).drop_last() =~= entries@.subrange(0, j as int));
        if e.is_file && extension_matches(&e.name, &ext) && starts_with(e.name.as_str(), stem.as_str())
            && e.name != current {
            let target = build_compressed_name(&e.name);
            let replace = is_listed(&names, &target);
            archive.push(ArchiveStep { source: e.name.clone(), target, replace_target: replace });
        }
        assert(archive@.map_values(|s: ArchiveStep| step_view(s))
            =~= archive_spec(entries@.subrange(0, j as int + 1), all, stem@, ext@, current@));
        j = j + 1;
    }
    assert(entries@.subrange(0, entries.len() as int) =~= entries@);
    let plan = RotationPlan { current, archive };
    assert(first_free(entry_names(entries@), stem@, ext@, *date, n as nat));
    Ok(plan)
}

/// Chooses the current log file for base file name `base` on today's date,
/// and the older log files to compress, from the entries of the log
/// directory.
pub fn plan_rotation_today(base: &str, entries: &Vec<DirEntry>) -> (r: Result<RotationPlan, RotationError>)
    ensures
        split_base_spec(base@) is None ==> r == Err::<RotationPlan, RotationError>(RotationError::InvalidBaseName),
        r == Err::<RotationPlan, RotationError>(RotationError::DateOutOfRange)
            || exists|d: LogDate| d.wf() && #[trigger] plan_spec(base@, d, entries@, r),
{
    if let Err(e) = split_base_filename(base) {
        let ghost d = LogDate { year: 1970, month: 1, day: 1 };
        assert(d.wf() && plan_spec(base@, d, entries@, Err(e)));
        return Err(e);
    }
    let (year, month, day) = today();
    match LogDate::new(year as i32, month as i32, day as i32) {
        None => Err(RotationError::DateOutOfRange),
        Some(date) => plan_rotation(base, &date, entries),
    }
}

/// On an empty log directory, a rotation chooses the first log file name of
/// the day, `{stem}_{date}.{ext}`, and compresses nothing.
pub proof fn lemma_empty_directory_first_name(
    base: Seq<char>,
    date: LogDate,
    r: Result<RotationPlan, RotationError>,
)
    requires
        split_base_spec(base) is Some,
        plan_spec(base, date, Seq::empty(), r),
    ensures
        r matches Ok(plan) && plan.current@ == candidate_name(
            base_stem(base),
            base_ext(base),
            date,
            0,
        ) && plan.archive@.len() == 0,
{
    let (stem, ext) = (base_stem(base), base_ext(base));
    let entries = Seq::<DirEntry>::empty();
    let names = entry_names(entries);
    assert(!is_taken(names, candidate_name(stem, ext, date, 0)));
    match r {
        Ok(plan) => {
            let n = choose|n: nat| #[trigger] first_free(names, stem, ext, date, n)
                && plan.current@ == candidate_name(stem, ext, date, n)
                && plan.archive@.map_values(|s: ArchiveStep| step_view(s))
                    == archive_spec(entries, names, stem, ext, plan.current@);
            if n > 0 {
                assert(is_taken(names, candidate_name(stem, ext, date, 0)));
            }
            assert(plan.archive@.map_values(|s: ArchiveStep| step_view(s)).len() == 0);
        },
        Err(_) => {
            assert(is_taken(names, candidate_name(stem, ext, date, 0)));
        },
    }
}

/// Where the log files of the day with numbers below `k` exist and the one
/// with number `k` is free, a rotation chooses the one with number `k`:
/// names are never reused, whatever was done with the earlier files.
pub proof fn lemma_next_free_number(
    base: Seq<char>,
    date: LogDate,
    entries: Seq<DirEntry>,
    k: nat,
    r: Result<RotationPlan, RotationError>,
)
    requires
        split_base_spec(base) is Some,
        k <= MAX_LOGFILE_NUMBER,
        forall|m: nat| m < k ==> entry_names(entries).contains(
            #[trigger] candidate_name(base_stem(base), base_ext(base), date, m),
        ),
        !is_taken(entry_names(entries), candidate_name(base_stem(base), base_ext(base), date, k)),
        plan_spec(base, date, entries, r),
    ensures
        r matches Ok(plan) && plan.current@ == candidate_name(
            base_stem(base),
            base_ext(base),
            date,
            k,
        ),
{
    let (stem, ext) = (base_stem(base), base_ext(base));
    let names = entry_names(entries);
    match r {
        Ok(plan) => {
            let n = choose|n: nat| #[trigger] first_free(names, stem, ext, date, n)
                && plan.current@ == candidate_name(stem, ext, date, n)
                && plan.archive@.map_values(|s: ArchiveStep| step_view(s))
                    == archive_spec(entries, names, stem, ext, plan.current@);
            if n < k {
                assert(names.contains(candidate_name(stem, ext, date, n)));
            }
            if n > k {
                assert(is_taken(names, candidate_name(stem, ext, date, k)));
            }
        },
        Err(_) => {
            assert(is_taken(names, candidate_name(stem, ext, date, k)));
        },
    }
}

/// `step` compresses one of the entries that `is_archived` selects.
pub open spec fn step_from_entry(
    entries: Seq<DirEntry>,
    stem: Seq<char>,
    ext: Seq<char>,
    current: Seq<char>,
    step: (Seq<char>, Seq<char>, bool),
) -> bool {
    exists|i: int| 0 <= i < entries.len() && #[trigger] is_archived(entries[i], stem, ext, current)
        && step.0 == entries[i].name@ && step.1 == compressed_name(entries[i].name@)
}

/// Some step of `steps` compresses entry `e`.
pub open spec fn entry_has_step(steps: Seq<(Seq<char>, Seq<char>, bool)>, e: DirEntry) -> bool {
    exists|j: int| 0 <= j < steps.len() && (#[trigger] steps[j]).0 == e.name@ && steps[j].1 == compressed_name(e.name@)
}

proof fn lemma_archive_spec_covers(
    entries: Seq<DirEntry>,
    all: Seq<Seq<char>>,
    stem: Seq<char>,
    ext: Seq<char>,
    current: Seq<char>,
)
    ensures
        forall|i: int| 0 <= i < entries.len() && #[trigger] is_archived(entries[i], stem, ext, current)
            ==> entry_has_step(archive_spec(entries, all, stem, ext, current), entries[i]),
        forall|j: int| 0 <= j < archive_spec(entries, all, stem, ext, current).len()
            ==> step_from_entry(entries, stem, ext, current, #[trigger] archive_spec(entries, all, stem, ext, current)[j]),
    decreases entries.len(),
{
    if entries.len() > 0 {
        let init = entries.drop_last();
        lemma_archive_spec_covers(init, all, stem, ext, current);
        let rest = archive_spec(init, all, stem, ext, current);
        let a = archive_spec(entries, all, stem, ext, current);
        assert forall|i: int| 0 <= i < entries.len() && #[trigger] is_archived(entries[i], stem, ext, current)
            implies entry_has_step(a, entries[i]) by {
            if i == entries.len() - 1 {
                assert(a[rest.len() as int].0 == entries[i].name@);
            } else {
                assert(init[i] == entries[i]);
                assert(is_archived(init[i], stem, ext, current));
                let j = choose|j: int| 0 <= j < rest.len() && (#[trigger] rest[j]).0 == init[i].name@
                    && rest[j].1 == compressed_name(init[i].name@);
                assert(a[j] == rest[j]);
            }
        }
        assert forall|j: int| 0 <= j < a.len() implies step_from_entry(entries, stem, ext, current, #[trigger] a[j]) by {
            if j < rest.len() {
                assert(a[j] == rest[j]);
                assert(step_from_entry(init, stem, ext, current, rest[j]));
                let i = choose|i: int| 0 <= i < init.len() && #[trigger] is_archived(init[i], stem, ext, current)
                    && rest[j].0 == init[i].name@ && rest[j].1 == compressed_name(init[i].name@);
                assert(entries[i] == init[i]);
                assert(is_archived(entries[i], stem, ext, current));
            } else {
                let i = entries.len() - 1;
                assert(entries[i] == entries.last());
                assert(is_archived(entries[i], stem, ext, current));
            }
        }
    }
}

/// A file of the log directory that a rotation compresses: one with the
/// base extension whose name starts with the base stem.
pub open spec fn is_older_log(e: DirEntry, stem: Seq<char>, ext: Seq<char>) -> bool {
    e.is_file && extension_spec(e.name@) == Some(ext) && has_prefix(e.name@, stem)
}

/// `step` compresses one of the older log files of `entries`.
pub open spec fn compresses_older_log(entries: Seq<DirEntry>, stem: Seq<char>, ext: Seq<char>, step: ArchiveStep) -> bool {
    exists|i: int| 0 <= i < entries.len() && #[trigger] is_older_log(entries[i], stem, ext)
        && step.source@ == entries[i].name@ && step.target@ == compressed_name(entries[i].name@)
}

/// Some step of the plan compresses entry `e` into its `.gz` form.
pub open spec fn plan_compresses(plan: RotationPlan, e: DirEntry) -> bool {
    exists|j: int| 0 <= j < plan.archive@.len() && (#[trigger] plan.archive@[j]).source@ == e.name@
        && plan.archive@[j].target@ == compressed_name(e.name@)
}

/// A rotation compresses each file of the log directory that has the base
/// extension and whose name starts with the base stem, into a file of the
/// same name followed by `.gz`, and no other file.
pub proof fn lemma_rotation_archives_older_files(
    base: Seq<char>,
    date: LogDate,
    entries: Seq<DirEntry>,
    plan: RotationPlan,
)
    requires
        split_base_spec(base) is Some,
        plan_spec(base, date, entries, Ok(plan)),
    ensures
        forall|i: int| 0 <= i < entries.len() && #[trigger] is_older_log(entries[i], base_stem(base), base_ext(base))
            ==> plan_compresses(plan, entries[i]),
        forall|j: int| 0 <= j < plan.archive@.len()
            ==> compresses_older_log(entries, base_stem(base), base_ext(base), #[trigger] plan.archive@[j]),
{
    let (stem, ext) = (base_stem(base), base_ext(base));
    let names = entry_names(entries);
    let n = choose|n: nat| #[trigger] first_free(names, stem, ext, date, n)
        && plan.current@ == candidate_name(stem, ext, date, n)
        && plan.archive@.map_values(|s: ArchiveStep| step_view(s))
            == archive_spec(entries, names, stem, ext, plan.current@);
    let a = archive_spec(entries, names, stem, ext, plan.current@);
    let v = plan.archive@.map_values(|s: ArchiveStep| step_view(s));
    lemma_archive_spec_covers(entries, names, stem, ext, plan.current@);
    assert forall|i: int| 0 <= i < entries.len() && #[trigger] is_older_log(entries[i], stem, ext)
        implies plan_compresses(plan, entries[i]) by {
        assert(names[i] == entries[i].name@);
        assert(entries[i].name@ != plan.current@);
        assert(is_archived(entries[i], stem, ext, plan.current@));
        assert(entry_has_step(a, entries[i]));
        let j = choose|j: int| 0 <= j < a.len() && (#[trigger] a[j]).0 == entries[i].name@
            && a[j].1 == compressed_name(entries[i].name@);
        assert(v[j] == step_view(plan.archive@[j]));
    }
    assert forall|j: int| 0 <= j < plan.archive@.len()
        implies compresses_older_log(entries, stem, ext, #[trigger] plan.archive@[j]) by {
        assert(v[j] == step_view(plan.archive@[j]));
        assert(a[j] == v[j]);
        assert(step_from_entry(entries, stem, ext, plan.current@, a[j]));
        let i = choose|i: int| 0 <= i < entries.len() && #[trigger] is_archived(entries[i], stem, ext, plan.current@)
            && a[j].0 == entries[i].name@ && a[j].1 == compressed_name(entries[i].name@);
        assert(is_older_log(entries[i], stem, ext));
    }
}

/// Names in the log directory after the archive steps ran, one after the
/// other: each removes its source and leaves its target.
pub open spec fn after_archive(names: Set<Seq<char>>, steps: Seq<ArchiveStep>) -> Set<Seq<char>>
    decreases steps.len(),
{
    if steps.len() == 0 {
        names
    } else {
        after_archive(names, steps.drop_last()).remove(steps.last().source@).insert(steps.last().target@)
    }
}

proof fn lemma_compressed_extension(name: Seq<char>)
    requires
        name.len() > 0,
    ensures
        extension_spec(compressed_name(name)) == Some(seq!['g', 'z']),
{
    let c = compressed_name(name);
    assert(c.drop_last().drop_last().drop_last() =~= name);
    assert(c.drop_last().drop_last().last() == '.');
    assert(c.drop_last().last() == 'g');
    assert(c.last() == 'z');
    assert(last_dot(c.drop_last().drop_last()) == name.len());
    assert(last_dot(c.drop_last()) == name.len());
    assert(last_dot(c) == name.len());
    assert(c.subrange(name.len() as int + 1, c.len() as int) =~= seq!['g', 'z']);
}

proof fn lemma_after_archive(names: Set<Seq<char>>, steps: Seq<ArchiveStep>)
    requires
        forall|j: int, k: int| 0 <= j < steps.len() && 0 <= k < steps.len()
            ==> (#[trigger] steps[j]).target@ != (#[trigger] steps[k]).source@,
    ensures
        forall|j: int| 0 <= j < steps.len() ==> !after_archive(names, steps).contains((#[trigger] steps[j]).source@)
            && after_archive(names, steps).contains(steps[j].target@),
    decreases steps.len(),
{
    if steps.len() > 0 {
        let init = steps.drop_last();
        assert forall|j: int, k: int| 0 <= j < init.len() && 0 <= k < init.len()
            implies (#[trigger] init[j]).target@ != (#[trigger] init[k]).source@ by {
            assert(init[j] == steps[j] && init[k] == steps[k]);
        }
        lemma_after_archive(names, init);
        let last = steps.last();
        assert forall|j: int| 0 <= j < steps.len() implies !after_archive(names, steps).contains(
            (#[trigger] steps[j]).source@,
        ) && after_archive(names, steps).contains(steps[j].target@) by {
            assert(steps[steps.len() - 1] == last);
            assert(last.target@ != steps[j].source@);
            if j < steps.len() - 1 {
                assert(init[j] == steps[j]);
            }
        }
    }
}

/// After a rotation with a base extension other than `gz`, where the steps
/// of its plan ran, none of the older log files of the directory is left and
/// each one's `.gz` form is there.
pub proof fn lemma_rotation_leaves_only_compressed(
    base: Seq<char>,
    date: LogDate,
    entries: Seq<DirEntry>,
    plan: RotationPlan,
)
    requires
        split_base_spec(base) is Some,
        base_ext(base) != seq!['g', 'z'],
        plan_spec(base, date, entries, Ok(plan)),
    ensures
        forall|i: int| 0 <= i < entries.len() && #[trigger] is_older_log(entries[i], base_stem(base), base_ext(base))
            ==> !after_archive(entry_names(entries).to_set(), plan.archive@).contains(entries[i].name@)
                && after_archive(entry_names(entries).to_set(), plan.archive@).contains(compressed_name(entries[i].name@)),
{
    let (stem, ext) = (base_stem(base), base_ext(base));
    let steps = plan.archive@;
    let names = entry_names(entries).to_set();
    lemma_rotation_archives_older_files(base, date, entries, plan);
    assert forall|j: int, k: int| 0 <= j < steps.len() && 0 <= k < steps.len()
        implies (#[trigger] steps[j]).target@ != (#[trigger] steps[k]).source@ by {
        assert(compresses_older_log(entries, stem, ext, steps[j]));
        assert(compresses_older_log(entries, stem, ext, steps[k]));
        let a = choose|a: int| 0 <= a < entries.len() && #[trigger] is_older_log(entries[a], stem, ext)
            && steps[j].source@ == entries[a].name@ && steps[j].target@ == compressed_name(entries[a].name@);
        let b = choose|b: int| 0 <= b < entries.len() && #[trigger] is_older_log(entries[b], stem, ext)
            && steps[k].source@ == entries[b].name@ && steps[k].target@ == compressed_name(entries[b].name@);
        lemma_last_dot_bounds(entries[a].name@);
        lemma_compressed_extension(entries[a].name@);
    }
    lemma_after_archive(names, steps);
    assert forall|i: int| 0 <= i < entries.len() && #[trigger] is_older_log(entries[i], stem, ext)
        implies !after_archive(names, steps).contains(entries[i].name@)
            && after_archive(names, steps).contains(compressed_name(entries[i].name@)) by {
        assert(plan_compresses(plan, entries[i]));
        let j = choose|j: int| 0 <= j < steps.len() && (#[trigger] steps[j]).source@ == entries[i].name@
            && steps[j].target@ == compressed_name(entries[i].name@);
    }
}

} // verus!
