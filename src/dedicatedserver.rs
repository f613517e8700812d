//! Presence and build version of a dedicated server installation.

use vstd::prelude::*;

verus! {

/// Build version of the dedicated server, as four numbers.
#[derive(Debug, PartialEq, Eq, PartialOrd, Ord, Structural)]
pub struct BuildVersion(pub i16, pub i16, pub i16, pub i16);

/// What is known of an installation of the dedicated server.
#[derive(Debug)]
pub struct InstallInfo {
    pub present: bool,
    pub build_version: Option<BuildVersion>,
}

impl Default for InstallInfo {
    fn default() -> (r: Self)
        ensures
            !r.present,
            r.build_version is None,
    {
        InstallInfo { present: false, build_version: None }
    }
}

/// What a look at the server directory found on disk.
pub struct InstallProbe {
    /// The server directory exists.
    pub dir_exists: bool,
    /// The server directory is a directory (and not a file).
    pub is_dir: bool,
    /// The server executable exists and is a file.
    pub executable_present: bool,
    /// The server wrapper executable exists and is a file.
    pub wrapper_present: bool,
    /// The first line of the build version file, where that file exists and
    /// could be read.
    pub build_version_line: Option<String>,
}

/// Why an installation could not be examined.
#[derive(Debug, PartialEq, Eq, Structural)]
pub enum InstallError {
    /// The server path exists, but is not a directory.
    NotADirectory,
}

pub open spec fn is_ascii_digit(c: char) -> bool {
    '0' <= c && c <= '9'
}

/// Value of a run of decimal digits.
pub open spec fn digits_value(s: Seq<char>) -> nat
    decreases s.len(),
{
    if s.len() == 0 {
        0
    } else {
        10 * digits_value(s.drop_last()) + ((s.last() as u32 - '0' as u32) as nat)
    }
}

/// End of the run of decimal digits that starts at `i`.
pub open spec fn digit_run_end(s: Seq<char>, i: int) -> int
    decreases s.len() - i,
{
    if 0 <= i < s.len() && is_ascii_digit(s[i]) {
        digit_run_end(s, i + 1)
    } else {
        i
    }
}

/// A number of at least one digit, starting at `i` and followed by `sep`:
/// its value and the index just after `sep`.
pub open spec fn field_at(s: Seq<char>, i: int, sep: char) -> Option<(nat, int)> {
    let e = digit_run_end(s, i);
    if e > i && e < s.len() && s[e] == sep {
        Some((digits_value(s.subrange(i, e)), e + 1))
    } else {
        None
    }
}

pub open spec fn fits_i16(v: nat) -> bool {
    v <= i16::MAX
}

/// A build version line is four decimal numbers, each fitting an `i16`,
/// separated by dots, and followed by a space and any text.
pub open spec fn parse_build_version_spec(s: Seq<char>) -> Option<BuildVersion> {
    match field_at(s, 0, '.') {
        None => None,
        Some((a, i1)) => match field_at(s, i1, '.') {
            None => None,
            Some((b, i2)) => match field_at(s, i2, '.') {
                None => None,
                Some((c, i3)) => match field_at(s, i3, ' ') {
                    None => None,
                    Some((d, _)) => if fits_i16(a) && fits_i16(b) && fits_i16(c) && fits_i16(d) {
                        Some(BuildVersion(a as i16, b as i16, c as i16, d as i16))
                    } else {
                        None
                    },
                },
            },
        },
    }
}

proof fn lemma_digit_run_end_bounds(s: Seq<char>, i: int)
    requires
        0 <= i <= s.len(),
    ensures
        i <= digit_run_end(s, i) <= s.len(),
        forall|k: int| i <= k < digit_run_end(s, i) ==> is_ascii_digit(#[trigger] s[k]),
        digit_run_end(s, i) < s.len() ==> !is_ascii_digit(s[digit_run_end(s, i)]),
    decreases s.len() - i,
{
    if i < s.len() && is_ascii_digit(s[i]) {
        lemma_digit_run_end_bounds(s, i + 1);
    }
}

proof fn lemma_digits_value_grows(s: Seq<char>, c: char)
    requires
        is_ascii_digit(c),
    ensures
        digits_value(s.push(c)) >= digits_value(s),
        digits_value(s.push(c)) == 10 * digits_value(s) + ((c as u32 - '0' as u32) as nat),
{
    assert(s.push(c).drop_last() =~= s);
}

/// Reads the number of at least one digit that starts at `i` and is followed
/// by `sep`.
fn scan_field(s: &str, len: usize, i: usize, sep: char) -> (r: Option<(u16, usize)>)
    requires
        len == s@.len(),
        i <= len,
    ensures
        match field_at(s@, i as int, sep) {
            None => r is None,
            Some((v, next)) => if fits_i16(v) {
                r == Some((v as u16, next as usize))
            } else {
                r is None
            },
        },
{
    proof {
        lemma_digit_run_end_bounds(s@, i as int);
    }
    let mut j: usize = i;
    let mut value: u16 = 0;
    let mut too_big = false;
    while j < len && ('0' <= s.get_char(j) && s.get_char(j) <= '9')
        invariant
            len == s@.len(),
            i <= j <= digit_run_end(s@, i as int),
            i <= digit_run_end(s@, i as int) <= len,
            forall|k: int| i <= k < digit_run_end(s@, i as int) ==> is_ascii_digit(#[trigger] s@[k]),
            digit_run_end(s@, i as int) < len ==> !is_ascii_digit(s@[digit_run_end(s@, i as int)]),
            !too_big ==> value as nat == digits_value(s@.subrange(i as int, j as int)),
            !too_big ==> value <= i16::MAX,
            too_big ==> !fits_i16(digits_value(s@.subrange(i as int, j as int))),
        decreases len - j,
    {
        let c = s.get_char(j);
        let d = (c as u32 - '0' as u32) as u16;
        proof {
            let sub = s@.subrange(i as int, j as int);
            lemma_digits_value_grows(sub, c);
            assert(s@.subrange(i as int, j as int + 1) =~= sub.push(c));
        }
        if !too_big {
            if value > 3276 || (value == 3276 && d > 7) {
                too_big = true;
            } else {
                value = value * 10 + d;
            }
        }
        j = j + 1;
    }
    if j == i || j >= len || s.get_char(j) != sep {
        return None;
    }
    if too_big {
        None
    } else {
        Some((value, j + 1))
    }
}

/// Reads a build version from the first line of a build version file.
pub fn parse_build_version(line: &str) -> (r: Option<BuildVersion>)
    ensures
        r == parse_build_version_spec(line@),
{
    let len = line.unicode_len();
    let (a, i1) = match scan_field(line, len, 0, '.') {
        None => return None,
        Some(f) => f,
    };
    let (b, i2) = match scan_field(line, len, i1, '.') {
        None => return None,
        Some(f) => f,
    };
    let (c, i3) = match scan_field(line, len, i2, '.') {
        None => return None,
        Some(f) => f,
    };
    let (d, _) = match scan_field(line, len, i3, ' ') {
        None => return None,
        Some(f) => f,
    };
    Some(BuildVersion(a as i16, b as i16, c as i16, d as i16))
}

/// What `InstallInfo::gather` finds for a given look at the disk.
pub open spec fn gather_spec(p: InstallProbe) -> Result<InstallInfo, InstallError> {
    if !p.dir_exists {
        Ok(InstallInfo { present: false, build_version: None })
    } else if !p.is_dir {
        Err(InstallError::NotADirectory)
    } else if !p.executable_present || !p.wrapper_present {
        Ok(InstallInfo { present: false, build_version: None })
    } else {
        match p.build_version_line {
            None => Ok(InstallInfo { present: true, build_version: None }),
            Some(line) => Ok(InstallInfo { present: true, build_version: parse_build_version_spec(line@) }),
        }
    }
}

impl InstallInfo {
    /// Decides whether the dedicated server is installed, and which build it
    /// is, from what was found in its directory. A build version file that
    /// cannot be parsed leaves the build version unknown.
    pub fn gather(probe: &InstallProbe) -> (r: Result<InstallInfo, InstallError>)
        ensures
            r == gather_spec(*probe),
    {
        if !probe.dir_exists {
            return Ok(InstallInfo::default());
        }
        if !probe.is_dir {
            return Err(InstallError::NotADirectory);
        }
        if !probe.executable_present || !probe.wrapper_present {
            return Ok(InstallInfo::default());
        }
        match &probe.build_version_line {
            None => Ok(InstallInfo { present: true, build_version: None }),
            Some(line) => Ok(InstallInfo { present: true, build_version: parse_build_version(line.as_str()) }),
        }
    }
}

} // verus!
