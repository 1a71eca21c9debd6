//! Versions: `vMAJOR.MINOR.PATCH`, with `-rcN` behind it for a release
//! candidate.

use crate::errors::VersionError;
use crate::text::{decimal, digits_value, has_at, lemma_run_end, match_at, push_decimal, read_decimal, run_end, scan_run, to_chars, Class};
use vstd::prelude::*;
use vstd::string::*;

verus! {

/// A version.
#[derive(Clone, Copy, Debug, PartialEq, Eq)]
pub struct Version {
    pub major: u8,
    pub minor: u8,
    pub patch: u8,
    /// The number of the release candidate, if the version is one.
    pub rc_version: Option<u8>,
}

/// The kinds of release that lead from one version to the next.
#[derive(Clone, Copy, Debug, PartialEq, Eq)]
pub enum ReleaseType {
    Major,
    Minor,
    Patch,
    RcMajor,
    RcMinor,
    RcPatch,
}

impl ReleaseType {
    /// The six kinds of release.
    pub fn all() -> (kinds: Vec<ReleaseType>)
        ensures
            kinds@ == seq![
                ReleaseType::Major,
                ReleaseType::Minor,
                ReleaseType::Patch,
                ReleaseType::RcMajor,
                ReleaseType::RcMinor,
                ReleaseType::RcPatch,
            ],
    {
        let mut kinds: Vec<ReleaseType> = Vec::new();
        kinds.push(ReleaseType::Major);
        kinds.push(ReleaseType::Minor);
        kinds.push(ReleaseType::Patch);
        kinds.push(ReleaseType::RcMajor);
        kinds.push(ReleaseType::RcMinor);
        kinds.push(ReleaseType::RcPatch);
        assert(kinds@ =~= seq![
            ReleaseType::Major,
            ReleaseType::Minor,
            ReleaseType::Patch,
            ReleaseType::RcMajor,
            ReleaseType::RcMinor,
            ReleaseType::RcPatch,
        ]);
        kinds
    }

    /// The name of the kind.
    pub open spec fn name(self) -> Seq<char> {
        match self {
            ReleaseType::Major => "Major"@,
            ReleaseType::Minor => "Minor"@,
            ReleaseType::Patch => "Patch"@,
            ReleaseType::RcMajor => "RcMajor"@,
            ReleaseType::RcMinor => "RcMinor"@,
            ReleaseType::RcPatch => "RcPatch"@,
        }
    }

    /// The name of the kind.
    pub fn as_str(&self) -> (s: &'static str)
        ensures
            s@ == self.name(),
    {
        match self {
            ReleaseType::Major => "Major",
            ReleaseType::Minor => "Minor",
            ReleaseType::Patch => "Patch",
            ReleaseType::RcMajor => "RcMajor",
            ReleaseType::RcMinor => "RcMinor",
            ReleaseType::RcPatch => "RcPatch",
        }
    }
}

/// Whether version `a` is newer than version `b`: the greater major number
/// decides, then the greater minor number, then the greater patch number.
/// Where the three are equal, a release is newer than each of its
/// candidates, and of two candidates the one with the greater number.
pub open spec fn newer(a: Version, b: Version) -> bool {
    if a.major != b.major {
        a.major > b.major
    } else if a.minor != b.minor {
        a.minor > b.minor
    } else if a.patch != b.patch {
        a.patch > b.patch
    } else {
        match (a.rc_version, b.rc_version) {
            (Some(x), Some(y)) => x > y,
            (Some(_), None) => false,
            (None, Some(_)) => true,
            (None, None) => false,
        }
    }
}

/// The text of a version.
pub open spec fn version_text(v: Version) -> Seq<char> {
    let plain = "v"@ + decimal(v.major as nat) + "."@ + decimal(v.minor as nat) + "."@ + decimal(
        v.patch as nat,
    );
    match v.rc_version {
        Some(rc) => plain + "-rc"@ + decimal(rc as nat),
        None => plain,
    }
}

impl Version {
    /// Whether this version is newer than `other`.
    pub fn gt(&self, other: &Version) -> (r: bool)
        ensures
            r == newer(*self, *other),
    {
        if self.major > other.major {
            return true;
        }
        if self.major < other.major {
            return false;
        }
        if self.minor > other.minor {
            return true;
        }
        if self.minor < other.minor {
            return false;
        }
        if self.patch > other.patch {
            return true;
        }
        if self.patch < other.patch {
            return false;
        }
        match self.rc_version {
            Some(v) => match other.rc_version {
                Some(v_other) => v > v_other,
                None => false,
            },
            None => other.rc_version.is_some(),
        }
    }

    /// The version as text.
    pub fn to_string(&self) -> (s: String)
        ensures
            s@ == version_text(*self),
    {
        let mut s = String::from_str("v");
        push_decimal(&mut s, self.major as u64);
        s.append(".");
        push_decimal(&mut s, self.minor as u64);
        s.append(".");
        push_decimal(&mut s, self.patch as u64);
        match self.rc_version {
            Some(rc) => {
                s.append("-rc");
                push_decimal(&mut s, rc as u64);
            },
            None => {},
        }
        s
    }
}

/// The digits that the grammar of a version divides a text into.
pub struct VersionFields {
    pub major: Seq<char>,
    pub minor: Seq<char>,
    pub patch: Seq<char>,
    pub rc: Option<Seq<char>>,
}

/// The grammar of a version: `v`, three numbers with a full stop between
/// them, and `-rc` with a fourth number, or nothing, behind them.
pub open spec fn version_fields(s: Seq<char>) -> Option<VersionFields> {
    let n = s.len() as int;
    let a = run_end(s, 1, Class::Digit);
    let b = run_end(s, a + 1, Class::Digit);
    let c = run_end(s, b + 1, Class::Digit);
    let d = run_end(s, c + 3, Class::Digit);
    if {
        &&& n > 0 && s[0] == 'v'
        &&& 1 < a < n && s[a] == '.'
        &&& a + 1 < b < n && s[b] == '.'
        &&& b + 1 < c
    } {
        if c == n {
            Some(
                VersionFields {
                    major: s.subrange(1, a),
                    minor: s.subrange(a + 1, b),
                    patch: s.subrange(b + 1, c),
                    rc: None,
                },
            )
        } else if has_at(s, c, "-rc"@) && c + 3 < d && d == n {
            Some(
                VersionFields {
                    major: s.subrange(1, a),
                    minor: s.subrange(a + 1, b),
                    patch: s.subrange(b + 1, c),
                    rc: Some(s.subrange(c + 3, d)),
                },
            )
        } else {
            None
        }
    } else {
        None
    }
}

/// The version that a text stands for. Each of its numbers has to fit into
/// eight bits.
pub open spec fn version_of(s: Seq<char>) -> Result<Version, VersionError> {
    match version_fields(s) {
        None => Err(VersionError::NoMatchFound),
        Some(f) => {
            let rc = match f.rc {
                Some(digits) => digits_value(digits),
                None => 0,
            };
            if digits_value(f.major) > u8::MAX || digits_value(f.minor) > u8::MAX || digits_value(
                f.patch,
            ) > u8::MAX || rc > u8::MAX {
                Err(VersionError::NoInteger)
            } else {
                Ok(
                    Version {
                        major: digits_value(f.major) as u8,
                        minor: digits_value(f.minor) as u8,
                        patch: digits_value(f.patch) as u8,
                        rc_version: match f.rc {
                            Some(digits) => Some(digits_value(digits) as u8),
                            None => None,
                        },
                    },
                )
            }
        },
    }
}

/// Reads the digits of `v` between `from` and `to` as a number of eight bits.
fn read_small(v: &Vec<char>, from: usize, to: usize) -> (r: Option<u8>)
    requires
        from < to <= v.len(),
        run_end(v@, from as int, Class::Digit) == to,
    ensures
        r is Some <==> digits_value(v@.subrange(from as int, to as int)) <= u8::MAX,
        r matches Some(n) ==> n == digits_value(v@.subrange(from as int, to as int)),
{
    proof {
        lemma_run_end(v@, from as int, Class::Digit);
    }
    match read_decimal(v, from, to) {
        Some(n) => if n <= 255 {
            Some(n as u8)
        } else {
            None
        },
        None => None,
    }
}

/// Parses a version.
pub fn parse(version: &str) -> (r: Result<Version, VersionError>)
    ensures
        r == version_of(version@),
{
    let v = to_chars(version);
    let n = v.len();
    if !(n > 0 && v[0] == 'v') {
        return Err(VersionError::NoMatchFound);
    }
    let a = scan_run(&v, 1, Class::Digit);
    if !(1 < a && a < n && v[a] == '.') {
        return Err(VersionError::NoMatchFound);
    }
    let b = scan_run(&v, a + 1, Class::Digit);
    if !(a + 1 < b && b < n && v[b] == '.') {
        return Err(VersionError::NoMatchFound);
    }
    let c = scan_run(&v, b + 1, Class::Digit);
    if !(b + 1 < c) {
        return Err(VersionError::NoMatchFound);
    }
    let mut d: usize = c;
    if c != n {
        if !match_at(&v, c, "-rc") {
            return Err(VersionError::NoMatchFound);
        }
        proof {
            reveal_strlit("-rc");
        }
        d = scan_run(&v, c + 3, Class::Digit);
        if !(c + 3 < d && d == n) {
            return Err(VersionError::NoMatchFound);
        }
    }
    let major = read_small(&v, 1, a);
    let minor = read_small(&v, a + 1, b);
    let patch = read_small(&v, b + 1, c);
    let rc = if c != n {
        match read_small(&v, c + 3, d) {
            Some(x) => Some(x),
            None => {
                return Err(VersionError::NoInteger);
            },
        }
    } else {
        None
    };
    match (major, minor, patch) {
        (Some(major), Some(minor), Some(patch)) => Ok(
            Version { major, minor, patch, rc_version: rc },
        ),
        _ => Err(VersionError::NoInteger),
    }
}

/// The version that a release of kind `release_type` leads to from
/// `version`: the number that the kind names goes up by one and those behind
/// it go back to zero. A kind of candidate makes the first candidate of that
/// version, or, from a candidate, the next candidate of the same version.
pub open spec fn bumped(version: Version, release_type: ReleaseType) -> Version {
    match release_type {
        ReleaseType::Major => Version {
            major: (version.major + 1) as u8,
            minor: 0,
            patch: 0,
            rc_version: None,
        },
        ReleaseType::Minor => Version {
            major: version.major,
            minor: (version.minor + 1) as u8,
            patch: 0,
            rc_version: None,
        },
        ReleaseType::Patch => Version {
            major: version.major,
            minor: version.minor,
            patch: (version.patch + 1) as u8,
            rc_version: None,
        },
        _ => match version.rc_version {
            Some(rc) => Version {
                major: version.major,
                minor: version.minor,
                patch: version.patch,
                rc_version: Some((rc + 1) as u8),
            },
            None => match release_type {
                ReleaseType::RcMajor => Version {
                    major: (version.major + 1) as u8,
                    minor: 0,
                    patch: 0,
                    rc_version: Some(1),
                },
                ReleaseType::RcMinor => Version {
                    major: version.major,
                    minor: (version.minor + 1) as u8,
                    patch: 0,
                    rc_version: Some(1),
                },
                _ => Version {
                    major: version.major,
                    minor: version.minor,
                    patch: (version.patch + 1) as u8,
                    rc_version: Some(1),
                },
            },
        },
    }
}

/// The number that a release of kind `release_type` raises in `version`.
pub open spec fn raised(version: Version, release_type: ReleaseType) -> int {
    match release_type {
        ReleaseType::Major => version.major as int,
        ReleaseType::Minor => version.minor as int,
        ReleaseType::Patch => version.patch as int,
        _ => match version.rc_version {
            Some(rc) => rc as int,
            None => match release_type {
                ReleaseType::RcMajor => version.major as int,
                ReleaseType::RcMinor => version.minor as int,
                _ => version.patch as int,
            },
        },
    }
}

/// The version that follows `version` by a release of kind `release_type`.
/// The number to be raised has to be below 255.
pub fn bump_version(version: &Version, release_type: &ReleaseType) -> (next: Version)
    requires
        raised(*version, *release_type) < u8::MAX,
    ensures
        next == bumped(*version, *release_type),
{
    match release_type {
        ReleaseType::Major => Version {
            major: version.major + 1,
            minor: 0,
            patch: 0,
            rc_version: None,
        },
        ReleaseType::Minor => Version {
            major: version.major,
            minor: version.minor + 1,
            patch: 0,
            rc_version: None,
        },
        ReleaseType::Patch => Version {
            major: version.major,
            minor: version.minor,
            patch: version.patch + 1,
            rc_version: None,
        },
        ReleaseType::RcMajor => match version.rc_version {
            Some(rc) => Version {
                major: version.major,
                minor: version.minor,
                patch: version.patch,
                rc_version: Some(rc + 1),
            },
            None => Version { major: version.major + 1, minor: 0, patch: 0, rc_version: Some(1) },
        },
        ReleaseType::RcMinor => match version.rc_version {
            Some(rc) => Version {
                major: version.major,
                minor: version.minor,
                patch: version.patch,
                rc_version: Some(rc + 1),
            },
            None => Version {
                major: version.major,
                minor: version.minor + 1,
                patch: 0,
                rc_version: Some(1),
            },
        },
        ReleaseType::RcPatch => match version.rc_version {
            Some(rc) => Version {
                major: version.major,
                minor: version.minor,
                patch: version.patch,
                rc_version: Some(rc + 1),
            },
            None => Version {
                major: version.major,
                minor: version.minor,
                patch: version.patch + 1,
                rc_version: Some(1),
            },
        },
    }
}

/// The next version, or `None` where the number to be raised is 255 already.
pub fn checked_bump_version(version: &Version, release_type: &ReleaseType) -> (next: Option<
    Version,
>)
    ensures
        next == if raised(*version, *release_type) < u8::MAX {
            Some(bumped(*version, *release_type))
        } else {
            None
        },
{
    let at_limit = match release_type {
        ReleaseType::Major => version.major == 255,
        ReleaseType::Minor => version.minor == 255,
        ReleaseType::Patch => version.patch == 255,
        ReleaseType::RcMajor => match version.rc_version {
            Some(rc) => rc == 255,
            None => version.major == 255,
        },
        ReleaseType::RcMinor => match version.rc_version {
            Some(rc) => rc == 255,
            None => version.minor == 255,
        },
        ReleaseType::RcPatch => match version.rc_version {
            Some(rc) => rc == 255,
            None => version.patch == 255,
        },
    };
    if at_limit {
        None
    } else {
        Some(bump_version(version, release_type))
    }
}

/// No version is newer than itself.
pub proof fn lemma_newer_irreflexive(a: Version)
    ensures
        !newer(a, a),
{
}

/// Of two versions at most one is newer than the other.
pub proof fn lemma_newer_asymmetric(a: Version, b: Version)
    requires
        newer(a, b),
    ensures
        !newer(b, a),
{
}

/// A version that is newer than a second, which is newer than a third, is
/// newer than the third.
pub proof fn lemma_newer_transitive(a: Version, b: Version, c: Version)
    requires
        newer(a, b),
        newer(b, c),
    ensures
        newer(a, c),
{
}

/// Of two different versions one is newer than the other.
pub proof fn lemma_newer_total(a: Version, b: Version)
    requires
        a != b,
    ensures
        newer(a, b) || newer(b, a),
{
}

} // verus!
