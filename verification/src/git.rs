//! bitplane's one runtime dependency, and the version floor it is held to.
//!
//! `git worktree list --porcelain -z` landed in 2.36, so that is the floor.
//! The version is checked once, and every later call gets the same answer.

use vstd::prelude::*;
use crate::error::EngineError;
use crate::text::{push_char, chars_of, decimal, first_word, first_word_of, has_prefix, push_decimal, signed_decimal, slice_of, split, split_on, starts_with, string_of, trim, trimmed, views};

verus! {

/// A git version, compared as `(major, minor, patch)`.
#[derive(Debug, Clone, Copy, PartialEq, Eq, PartialOrd, Ord, Hash, Structural)]
pub struct GitVersion {
    pub major: u32,
    pub minor: u32,
    pub patch: u32,
}

/// The oldest git bitplane runs against.
pub fn minimum_git_version() -> (v: GitVersion)
    ensures
        v == minimum(),
{
    GitVersion { major: 2, minor: 36, patch: 0 }
}

/// The floor, as a value.
pub open spec fn minimum() -> GitVersion {
    GitVersion { major: 2, minor: 36, patch: 0 }
}

/// `a` is at least `b`, comparing major, then minor, then patch.
pub open spec fn at_least(a: GitVersion, b: GitVersion) -> bool {
    a.major > b.major || (a.major == b.major && (a.minor > b.minor || (a.minor == b.minor && a.patch
        >= b.patch)))
}

/// The value of a run of decimal digits.
pub open spec fn digits_value(s: Seq<char>) -> nat
    decreases s.len(),
{
    if s.len() == 0 {
        0
    } else {
        digits_value(s.drop_last()) * 10 + ((s.last() as u32) - ('0' as u32)) as nat
    }
}

pub open spec fn is_digit(c: char) -> bool {
    '0' <= c && c <= '9'
}

/// What `u32::from_str` reads: an optional `+`, then one or more ASCII
/// digits whose value fits.
pub open spec fn u32_reading(s: Seq<char>) -> Option<u32> {
    let digits = unsigned_part(s);
    if digits.len() == 0 || !all_digits(digits) {
        None
    } else if digits_value(digits) > u32::MAX {
        None
    } else {
        Some(digits_value(digits) as u32)
    }
}

/// `s` without one leading `+`.
pub open spec fn unsigned_part(s: Seq<char>) -> Seq<char> {
    if s.len() > 0 && s[0] == '+' {
        s.drop_first()
    } else {
        s
    }
}

/// Every character of `s` is an ASCII digit.
pub open spec fn all_digits(s: Seq<char>) -> bool {
    forall|i: int| 0 <= i < s.len() ==> #[trigger] is_digit(s[i])
}

/// A version component: absent, present and a number, or present and not.
pub open spec fn component(pieces: Seq<Seq<char>>, i: int) -> Result<Option<u32>, ()> {
    if i >= pieces.len() {
        Ok(None)
    } else {
        match u32_reading(pieces[i]) {
            Some(n) => Ok(Some(n)),
            None => Err(()),
        }
    }
}

/// `2.36`, `2.36.0`, `2.44.0.windows.1` and `2.45.GIT` alike: major must be a
/// number, minor must be one where present, and a patch that is not one is 0.
pub open spec fn version_reading(s: Seq<char>) -> Option<GitVersion> {
    let pieces = split(s, '.');
    match component(pieces, 0) {
        Ok(Some(major)) => match component(pieces, 1) {
            Err(_) => None,
            Ok(minor) => Some(
                GitVersion {
                    major,
                    minor: match minor {
                        Some(m) => m,
                        None => 0,
                    },
                    patch: match component(pieces, 2) {
                        Ok(Some(p)) => p,
                        _ => 0,
                    },
                },
            ),
        },
        _ => None,
    }
}

/// A whole `git --version` line: trimmed, `git version ` stripped, the first
/// word read as a version.
pub open spec fn version_line(line: Seq<char>) -> Option<GitVersion> {
    let t = trim(line);
    if !starts_with(t, "git version "@) {
        None
    } else {
        match first_word(t.subrange(12, t.len() as int)) {
            None => None,
            Some(w) => version_reading(w),
        }
    }
}

/// `major.minor.patch`.
pub open spec fn version_text(v: GitVersion) -> Seq<char> {
    decimal(v.major as nat) + seq!['.'] + decimal(v.minor as nat) + seq!['.'] + decimal(v.patch as nat)
}

/// How a message names a version: a zero patch is dropped.
pub open spec fn spoken_text(v: GitVersion) -> Seq<char> {
    if v.patch == 0 {
        decimal(v.major as nat) + seq!['.'] + decimal(v.minor as nat)
    } else {
        version_text(v)
    }
}

/// A string that is not a git version.
#[derive(Debug, Clone, Copy, PartialEq, Eq, Structural)]
pub struct UnreadableGitVersion;

fn digit_value(c: char) -> (d: u32)
    requires
        is_digit(c),
    ensures
        d == (c as u32) - ('0' as u32),
        d < 10,
{
    (c as u32) - ('0' as u32)
}

/// `u32::from_str`.
pub fn read_u32(s: &[char]) -> (r: Option<u32>)
    ensures
        r == u32_reading(s@),
{
    let ghost expected = unsigned_part(s@);
    let digits = if s.len() > 0 && s[0] == '+' {
        slice_of(s, 1, s.len())
    } else {
        slice_of(s, 0, s.len())
    };
    assert(digits@ =~= expected);
    if digits.len() == 0 {
        return None;
    }
    let mut value: u64 = 0;
    let mut i: usize = 0;
    while i < digits.len()
        invariant
            digits@ == expected,
            expected == unsigned_part(s@),
            i <= digits@.len(),
            value == digits_value(digits@.subrange(0, i as int)),
            value <= u32::MAX,
            forall|j: int| 0 <= j < i ==> #[trigger] is_digit(digits@[j]),
        decreases digits.len() - i,
    {
        let c = digits[i];
        if !('0' <= c && c <= '9') {
            assert(!is_digit(expected[i as int]));
            assert(!all_digits(expected));
            return None;
        }
        let d = digit_value(c);
        let ghost upto = digits@.subrange(0, i as int + 1);
        assert(upto.drop_last() =~= digits@.subrange(0, i as int));
        assert(upto.last() == c);
        let next = value * 10 + d as u64;
        assert(next == digits_value(upto));
        if next > 0xFFFF_FFFFu64 {
            let mut k = i + 1;
            while k < digits.len()
                invariant
                    digits@ == expected,
                    expected == unsigned_part(s@),
                    next > u32::MAX,
                    next == digits_value(digits@.subrange(0, i as int + 1)),
                    i + 1 <= k <= digits@.len(),
                    forall|j: int| 0 <= j < k ==> #[trigger] is_digit(digits@[j]),
                decreases digits.len() - k,
            {
                let c2 = digits[k];
                if !('0' <= c2 && c2 <= '9') {
                    assert(!is_digit(expected[k as int]));
                    assert(!all_digits(expected));
                    return None;
                }
                k = k + 1;
            }
            proof {
                lemma_digits_value_monotone(digits@, i as int + 1);
            }
            return None;
        }
        value = next;
        i = i + 1;
    }
    assert(digits@.subrange(0, digits@.len() as int) =~= digits@);
    Some(value as u32)
}

/// A longer run of digits is worth at least as much as its prefix.
pub proof fn lemma_digits_value_monotone(s: Seq<char>, n: int)
    requires
        0 <= n <= s.len(),
        forall|j: int| 0 <= j < s.len() ==> #[trigger] is_digit(s[j]),
    ensures
        digits_value(s) >= digits_value(s.subrange(0, n)),
    decreases s.len() - n,
{
    if n < s.len() {
        lemma_digits_value_monotone(s, n + 1);
        let p = s.subrange(0, n + 1);
        assert(p.drop_last() =~= s.subrange(0, n));
        assert(is_digit(s[n]));
        assert(digits_value(p) == digits_value(s.subrange(0, n)) * 10 + ((p.last() as u32) - ('0' as u32)) as nat);
    } else {
        assert(s.subrange(0, n) =~= s);
    }
}

/// One version component.
fn number(pieces: &Vec<Vec<char>>, i: usize) -> (r: Result<Option<u32>, ()>)
    ensures
        r == component(views(pieces@), i as int),
{
    if i >= pieces.len() {
        Ok(None)
    } else {
        match read_u32(pieces[i].as_slice()) {
            Some(n) => Ok(Some(n)),
            None => Err(()),
        }
    }
}

impl GitVersion {
    pub fn new(major: u32, minor: u32, patch: u32) -> (v: GitVersion)
        ensures
            v == (GitVersion { major, minor, patch }),
    {
        GitVersion { major, minor, patch }
    }

    /// Parses `2.36`, `2.36.0`, `2.44.0.windows.1` and `2.45.GIT` alike.
    pub fn from_version(version: &str) -> (r: Result<GitVersion, UnreadableGitVersion>)
        ensures
            match version_reading(version@) {
                Some(v) => r == Ok::<GitVersion, UnreadableGitVersion>(v),
                None => r is Err,
            },
    {
        let v = chars_of(version);
        let pieces = split_on(v.as_slice(), '.');
        let major = match number(&pieces, 0) {
            Ok(Some(m)) => m,
            _ => return Err(UnreadableGitVersion),
        };
        let minor = match number(&pieces, 1) {
            Ok(m) => match m {
                Some(m) => m,
                None => 0,
            },
            Err(_) => return Err(UnreadableGitVersion),
        };
        let patch = match number(&pieces, 2) {
            Ok(Some(p)) => p,
            _ => 0,
        };
        Ok(GitVersion { major, minor, patch })
    }

    /// Reads a version out of a whole `git --version` line, which is
    /// `git version 2.50.1 (Apple Git-155)` on macOS.
    pub fn from_version_line(line: &str) -> (r: Option<GitVersion>)
        ensures
            r == version_line(line@),
    {
        let v = chars_of(line);
        let t = trimmed(v.as_slice());
        let prefix = chars_of("git version ");
        proof {
            reveal_strlit("git version ");
        }
        if !has_prefix(t.as_slice(), prefix.as_slice()) {
            return None;
        }
        let rest = slice_of(t.as_slice(), 12, t.len());
        match first_word_of(rest.as_slice()) {
            None => None,
            Some(word) => {
                let text = string_of(word.as_slice());
                match GitVersion::from_version(text.as_str()) {
                    Ok(version) => Some(version),
                    Err(_) => None,
                }
            },
        }
    }

    /// Whether this git can run bitplane.
    pub fn is_supported(self) -> (r: bool)
        ensures
            r == at_least(self, minimum()),
    {
        let floor = minimum_git_version();
        self.major > floor.major || (self.major == floor.major && (self.minor > floor.minor || (
        self.minor == floor.minor && self.patch >= floor.patch)))
    }

    /// `major.minor.patch`, which is also the wire form.
    pub fn to_text(&self) -> (s: String)
        ensures
            s@ == version_text(*self),
    {
        let mut s = String::new();
        push_decimal(&mut s, self.major as u64);
        push_char(&mut s, '.');
        push_decimal(&mut s, self.minor as u64);
        push_char(&mut s, '.');
        push_decimal(&mut s, self.patch as u64);
        s
    }

    /// How a message names this version: `2.36` rather than `2.36.0`.
    pub fn spoken(&self) -> (s: String)
        ensures
            s@ == spoken_text(*self),
    {
        let mut s = String::new();
        push_decimal(&mut s, self.major as u64);
        push_char(&mut s, '.');
        push_decimal(&mut s, self.minor as u64);
        if self.patch != 0 {
            push_char(&mut s, '.');
            push_decimal(&mut s, self.patch as u64);
        }
        s
    }
}

/// Why git could not be asked.
#[derive(Debug, Clone, PartialEq, Eq)]
pub enum ProbeFailure {
    /// There is no git to ask.
    NotFound,
    /// There is a git, and it would not answer.
    Failed { message: String },
}

/// Asks the git on `PATH` what version it is. A trait so the version test can be
/// driven without a git installed.
pub trait GitProbe {
    /// git's raw `git --version` output.
    fn report_version(&self) -> Result<String, ProbeFailure>;
}

/// What the version check answers for one probe report.
pub open spec fn verdict_for(reported: Result<String, ProbeFailure>, r: Result<GitVersion, EngineError>) -> bool {
    match reported {
        Err(ProbeFailure::NotFound) => r matches Err(EngineError::GitMissing),
        Err(ProbeFailure::Failed { message }) => r matches Err(EngineError::GitUnusable { message: m }) && m@ == message@,
        Ok(text) => match version_line(text@) {
            None => r matches Err(EngineError::GitVersionUnreadable { reported: x }) && x@ == trim(text@),
            Some(v) => if at_least(v, minimum()) {
                r == Ok::<GitVersion, EngineError>(v)
            } else {
                r == Err::<GitVersion, EngineError>(EngineError::GitTooOld { found: v, required: minimum() })
            },
        },
    }
}

/// The only answers the version check gives.
pub open spec fn is_git_verdict(r: Result<GitVersion, EngineError>) -> bool {
    match r {
        Ok(_) => true,
        Err(e) => e is GitMissing || e is GitUnusable || e is GitVersionUnreadable || e is GitTooOld,
    }
}

/// Turns a probe report into the version test's answer.
pub fn judge_report(reported: Result<String, ProbeFailure>) -> (r: Result<GitVersion, EngineError>)
    ensures
        verdict_for(reported, r),
        is_git_verdict(r),
{
    match reported {
        Err(ProbeFailure::NotFound) => Err(EngineError::GitMissing),
        Err(ProbeFailure::Failed { message }) => Err(EngineError::GitUnusable { message }),
        Ok(text) => match GitVersion::from_version_line(text.as_str()) {
            None => {
                let v = chars_of(text.as_str());
                let t = trimmed(v.as_slice());
                Err(EngineError::GitVersionUnreadable { reported: string_of(t.as_slice()) })
            },
            Some(found) => {
                if found.is_supported() {
                    Ok(found)
                } else {
                    Err(EngineError::GitTooOld { found, required: minimum_git_version() })
                }
            },
        },
    }
}

/// An identical copy of a version-check answer.
fn copy_verdict(r: &Result<GitVersion, EngineError>) -> (c: Result<GitVersion, EngineError>)
    requires
        is_git_verdict(*r),
    ensures
        c == *r,
{
    match r {
        Ok(v) => Ok(*v),
        Err(EngineError::GitMissing) => Err(EngineError::GitMissing),
        Err(EngineError::GitUnusable { message }) => Err(EngineError::GitUnusable { message: message.clone() }),
        Err(EngineError::GitVersionUnreadable { reported }) => Err(
            EngineError::GitVersionUnreadable { reported: reported.clone() },
        ),
        Err(EngineError::GitTooOld { found, required }) => Err(
            EngineError::GitTooOld { found: *found, required: *required },
        ),
        Err(_) => Err(EngineError::GitMissing),
    }
}

/// The git version check, memoised: probed on first use and never again.
pub struct GitPrerequisite<P: GitProbe> {
    probe: P,
    checked: Option<Result<GitVersion, EngineError>>,
}

impl<P: GitProbe> GitPrerequisite<P> {
    /// Whatever is remembered is an answer the version test gives.
    #[verifier::type_invariant]
    spec fn remembers_a_verdict(self) -> bool {
        self.checked matches Some(r) ==> is_git_verdict(r)
    }

    /// The answer already given, if the version test has run.
    pub closed spec fn answer(&self) -> Option<Result<GitVersion, EngineError>> {
        self.checked
    }

    /// The probe this check was made with.
    pub closed spec fn asked(&self) -> P {
        self.probe
    }

    pub fn new(probe: P) -> (g: GitPrerequisite<P>)
        ensures
            g.answer() is None,
            g.asked() == probe,
    {
        GitPrerequisite { probe, checked: None }
    }

    /// The version check. Runs the probe on the first call and judges what
    /// that run reported; every call after it returns the same answer.
    pub fn ensure_supported(&mut self) -> (r: Result<GitVersion, EngineError>)
        ensures
            old(self).answer() matches Some(a) ==> r == a,
            old(self).answer() is None ==> exists|reported: Result<String, ProbeFailure>|
                #[trigger] call_ensures(P::report_version, (&old(self).asked(),), reported)
                    && verdict_for(reported, r),
            final(self).answer() == Some(r),
    {
        proof {
            use_type_invariant(&*self);
        }
        match &self.checked {
            Some(answer) => copy_verdict(answer),
            None => {
                let reported = self.probe.report_version();
                let ghost heard = reported;
                assert(call_ensures(P::report_version, (&old(self).asked(),), heard));
                let answer = judge_report(reported);
                let kept = copy_verdict(&answer);
                self.checked = Some(kept);
                answer
            },
        }
    }

    /// The probe this check asks.
    pub fn probe(&self) -> (p: &P)
        ensures
            *p == self.asked(),
    {
        &self.probe
    }
}

/// How a `git --version` that did not succeed is described: its exit code,
/// or that a signal killed it, then what it said on stderr, where it said
/// anything.
pub open spec fn exit_description(code: Option<i32>, stderr: Seq<char>) -> Seq<char> {
    let said = trim(stderr);
    let how = match code {
        Some(c) => "`git --version` exited "@ + signed_decimal(c as int),
        None => "`git --version` was killed by a signal"@,
    };
    if said.len() == 0 {
        how
    } else {
        how + ": "@ + said
    }
}

/// Describes a `git --version` that did not succeed, for the failure that
/// reports git as unusable.
pub fn describe_exit(code: Option<i32>, stderr: &str) -> (s: String)
    ensures
        s@ == exit_description(code, stderr@),
{
    let v = chars_of(stderr);
    let said = trimmed(v.as_slice());
    let mut s = match code {
        Some(c) => {
            let mut s = crate::text::owned("`git --version` exited ");
            crate::text::push_signed_decimal(&mut s, c as i64);
            s
        },
        None => crate::text::owned("`git --version` was killed by a signal"),
    };
    if said.len() > 0 {
        crate::text::push_str(&mut s, ": ");
        crate::text::push_seq(&mut s, said.as_slice());
    }
    s
}

} // verus!
