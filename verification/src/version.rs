//! Semantic versions.
use vstd::prelude::*;

use crate::text;

verus! {

/// The error of the `semver` crate.
#[verifier::external_type_specification]
#[verifier::external_body]
pub struct ExSemverError(semver::Error);

/// The longest text, in characters, that is looked at as a version.
pub const VERSION_TEXT_MAX: usize = 32768;

/// A semantic version.
#[derive(Debug)]
pub struct Version<S = String> {
    /// The major number.
    pub major: u64,
    /// The minor number.
    pub minor: u64,
    /// The patch number.
    pub patch: u64,
    /// The pre-release identifiers, or nothing.
    pub pre: S,
    /// The build identifiers, or nothing.
    pub build: S,
}

impl View for Version<String> {
    type V = Version<Seq<char>>;

    open spec fn view(&self) -> Version<Seq<char>> {
        Version {
            major: self.major,
            minor: self.minor,
            patch: self.patch,
            pre: self.pre@,
            build: self.build@,
        }
    }
}

/// The three numbers of a release.
#[derive(Debug, Clone, Copy, PartialEq, Eq, Structural)]
pub struct Release {
    /// The major number.
    pub major: u64,
    /// The minor number.
    pub minor: u64,
    /// The patch number.
    pub patch: u64,
}

/// The oldest release of the proxy protocol that will do: 0.2.9.
pub open spec fn oldest() -> Release {
    Release { major: 0, minor: 2, patch: 9 }
}

/// A decimal digit.
pub open spec fn is_digit(c: char) -> bool {
    '0' <= c && c <= '9'
}

/// A character of an identifier.
pub open spec fn is_identifier_char(c: char) -> bool {
    is_digit(c) || ('a' <= c && c <= 'z') || ('A' <= c && c <= 'Z') || c == '-'
}

/// Identifiers of at least one character each, with single dots between them.
pub open spec fn is_identifiers(s: Seq<char>) -> bool {
    &&& s.len() > 0
    &&& forall|i: int|
        0 <= i < s.len() ==> is_identifier_char(#[trigger] s[i]) || (s[i] == '.' && 0 < i && i + 1
            < s.len() && is_identifier_char(s[i - 1]) && is_identifier_char(s[i + 1]))
}

/// Whether the characters `i..j` are a number between two dots or ends.
pub open spec fn is_number(s: Seq<char>, i: int, j: int) -> bool {
    &&& 0 <= i < j <= s.len()
    &&& i == 0 || s[i - 1] == '.'
    &&& j == s.len() || s[j] == '.'
    &&& forall|k: int| i <= k < j ==> is_digit(#[trigger] s[k])
}

/// Numbers have no leading zeros.
pub open spec fn no_leading_zeros(s: Seq<char>) -> bool {
    forall|i: int, j: int| #[trigger] is_number(s, i, j) && i + 1 < j ==> s[i] != '0'
}

impl Version<Seq<char>> {
    /// Whether the identifiers are well formed.
    pub open spec fn valid(self) -> bool {
        &&& self.pre.len() == 0 || (is_identifiers(self.pre) && no_leading_zeros(self.pre))
        &&& self.build.len() == 0 || is_identifiers(self.build)
    }

    /// The text of the identifiers.
    pub open spec fn suffix(self) -> Seq<char> {
        (if self.pre.len() > 0 {
            seq!['-'] + self.pre
        } else {
            Seq::empty()
        }) + (if self.build.len() > 0 {
            seq!['+'] + self.build
        } else {
            Seq::empty()
        })
    }

    /// The text of the version.
    pub open spec fn text(self) -> Seq<char> {
        text::decimal_text(self.major as nat) + (seq!['.'] + (text::decimal_text(
            self.minor as nat,
        ) + (seq!['.'] + (text::decimal_text(self.patch as nat) + self.suffix()))))
    }

    /// Whether the version is not a pre-release, and at least `least`.
    pub open spec fn at_least(self, least: Release) -> bool {
        &&& self.pre.len() == 0
        &&& self.major > least.major || (self.major == least.major && (self.minor > least.minor
            || (self.minor == least.minor && self.patch >= least.patch)))
    }
}

/// Whether `s` is the text of a version.
pub open spec fn is_version(s: Seq<char>) -> bool {
    exists|v: Version<Seq<char>>| #[trigger] v.valid() && v.text() == s
}

/// Whether `s` is the text of a version that is at least `least`.
pub open spec fn is_version_at_least(s: Seq<char>, least: Release) -> bool {
    exists|v: Version<Seq<char>>| #[trigger] v.valid() && v.text() == s && v.at_least(least)
}

/// The requirement of a version that is at least `least`.
pub open spec fn at_least_text(least: Release) -> Seq<char> {
    ">="@ + text::decimal_text(least.major as nat) + "."@ + text::decimal_text(least.minor as nat)
        + "."@ + text::decimal_text(least.patch as nat)
}

/// Whether the answer to a requirement of that form is right.
pub open spec fn answers(
    met: Result<bool, semver::Error>,
    requirement: Seq<char>,
    v: Version<Seq<char>>,
) -> bool {
    forall|least: Release|
        requirement == #[trigger] at_least_text(least) ==> (met matches Ok(m) && m == v.at_least(
            least,
        ))
}

/// What `semver::Version::parse` has against a text that is not a version.
pub uninterp spec fn semver_complaint(s: Seq<char>) -> Seq<char>;

/// Calls `semver::Version::parse` and takes the result apart: it succeeds exactly
/// on the texts of versions, and the parts put together again are the text. Of the
/// text of an error nothing is said but that it depends on the parsed text alone.
#[verifier::external_body]
fn semver_parse(s: &str) -> (version: Result<Version, String>)
    requires
        s@.len() <= VERSION_TEXT_MAX,
    ensures
        version is Ok <==> is_version(s@),
        version matches Ok(v) ==> v@.valid() && v@.text() == s@,
        version matches Err(e) ==> e@ == semver_complaint(s@),
{
    let v = semver::Version::parse(s).map_err(|e| e.to_string())?;
    Ok(Version {
        major: v.major,
        minor: v.minor,
        patch: v.patch,
        pre: v.pre.as_str().to_owned(),
        build: v.build.as_str().to_owned(),
    })
}

/// Calls `semver::VersionReq::parse` and `semver::VersionReq::matches`: a
/// requirement of the form `>=major.minor.patch` is met by releases that are at
/// least that, and not by pre-releases. Nothing is said of other requirements.
#[verifier::external_body]
fn semver_matches(requirement: &str, v: &Version) -> (met: Result<bool, semver::Error>)
    requires
        requirement@.len() <= VERSION_TEXT_MAX,
        v@.valid(),
        v@.pre.len() <= VERSION_TEXT_MAX,
        v@.build.len() <= VERSION_TEXT_MAX,
    ensures
        answers(met, requirement@, v@),
{
    let required = semver::VersionReq::parse(requirement)?;
    Ok(required.matches(&semver::Version {
        major: v.major,
        minor: v.minor,
        patch: v.patch,
        pre: semver::Prerelease::new(&v.pre)?,
        build: semver::BuildMetadata::new(&v.build)?,
    }))
}

proof fn lemma_span(
    p: spec_fn(char) -> bool,
    a: Seq<char>,
    r: Seq<char>,
    b: Seq<char>,
    s: Seq<char>,
)
    requires
        forall|i: int| 0 <= i < a.len() ==> p(#[trigger] a[i]),
        forall|i: int| 0 <= i < b.len() ==> p(#[trigger] b[i]),
        r.len() > 0 ==> !p(r[0]),
        s.len() > 0 ==> !p(s[0]),
        a + r == b + s,
    ensures
        a == b,
        r == s,
{
    let x = a + r;
    let y = b + s;
    assert(x.len() == a.len() + r.len());
    assert(y.len() == b.len() + s.len());
    if a.len() < b.len() {
        assert(x[a.len() as int] == r[0]);
        assert(y[a.len() as int] == b[a.len() as int]);
        assert(false);
    }
    if b.len() < a.len() {
        assert(y[b.len() as int] == s[0]);
        assert(x[b.len() as int] == a[b.len() as int]);
        assert(false);
    }
    assert(a =~= x.take(a.len() as int));
    assert(b =~= y.take(a.len() as int));
    assert(r =~= x.skip(a.len() as int));
    assert(s =~= y.skip(a.len() as int));
}

proof fn lemma_decimal_digits(n: nat)
    ensures
        forall|i: int|
            0 <= i < text::decimal_text(n).len() ==> is_digit(#[trigger] text::decimal_text(n)[i]),
        text::decimal_text(n).len() > 0,
    decreases n,
{
    if n >= 10 {
        lemma_decimal_digits(n / 10);
    }
}

proof fn lemma_decimal_injective(n: nat, m: nat)
    requires
        text::decimal_text(n) == text::decimal_text(m),
    ensures
        n == m,
    decreases n,
{
    let s = text::decimal_text(n);
    let t = text::decimal_text(m);
    lemma_decimal_digits(n / 10);
    lemma_decimal_digits(m / 10);
    assert(s.last() == text::hex_digit((n % 10) as int));
    assert(t.last() == text::hex_digit((m % 10) as int));
    assert(n % 10 == m % 10);
    if n >= 10 && m >= 10 {
        assert(s.drop_last() =~= text::decimal_text(n / 10));
        assert(t.drop_last() =~= text::decimal_text(m / 10));
        lemma_decimal_injective(n / 10, m / 10);
    } else if n >= 10 {
        assert(t.len() == 1);
        assert(s.len() > 1);
    } else if m >= 10 {
        assert(s.len() == 1);
        assert(t.len() > 1);
    }
}

proof fn lemma_number(n: nat, r: Seq<char>, m: nat, s: Seq<char>)
    requires
        r.len() > 0 ==> !is_digit(r[0]),
        s.len() > 0 ==> !is_digit(s[0]),
        text::decimal_text(n) + r == text::decimal_text(m) + s,
    ensures
        n == m,
        r == s,
{
    lemma_decimal_digits(n);
    lemma_decimal_digits(m);
    lemma_span(|c: char| is_digit(c), text::decimal_text(n), r, text::decimal_text(m), s);
    lemma_decimal_injective(n, m);
}

proof fn lemma_suffix(v: Version<Seq<char>>, w: Version<Seq<char>>)
    requires
        v.valid(),
        w.valid(),
        v.suffix() == w.suffix(),
    ensures
        v.pre == w.pre,
        v.build == w.build,
{
    let plus = |c: char| c != '+';
    let head = |x: Version<Seq<char>>|
        if x.pre.len() > 0 {
            seq!['-'] + x.pre
        } else {
            Seq::empty()
        };
    let tail = |x: Version<Seq<char>>|
        if x.build.len() > 0 {
            seq!['+'] + x.build
        } else {
            Seq::empty()
        };
    assert forall|i: int| 0 <= i < head(v).len() implies plus(#[trigger] head(v)[i]) by {
        if i > 0 {
            assert(head(v)[i] == v.pre[i - 1]);
        }
    }
    assert forall|i: int| 0 <= i < head(w).len() implies plus(#[trigger] head(w)[i]) by {
        if i > 0 {
            assert(head(w)[i] == w.pre[i - 1]);
        }
    }
    lemma_span(plus, head(v), tail(v), head(w), tail(w));
    assert(v.pre.len() > 0 ==> v.pre =~= head(v).skip(1));
    assert(w.pre.len() > 0 ==> w.pre =~= head(w).skip(1));
    assert(v.build.len() > 0 ==> v.build =~= tail(v).skip(1));
    assert(w.build.len() > 0 ==> w.build =~= tail(w).skip(1));
    assert(v.pre =~= w.pre);
    assert(v.build =~= w.build);
}

/// A text stands for one version at most.
pub proof fn version_is_unique(v: Version<Seq<char>>, w: Version<Seq<char>>)
    requires
        v.valid(),
        w.valid(),
        v.text() == w.text(),
    ensures
        v == w,
{
    let (v3, w3) = (v.suffix(), w.suffix());
    let v2 = seq!['.'] + (text::decimal_text(v.patch as nat) + v3);
    let w2 = seq!['.'] + (text::decimal_text(w.patch as nat) + w3);
    let v1 = seq!['.'] + (text::decimal_text(v.minor as nat) + v2);
    let w1 = seq!['.'] + (text::decimal_text(w.minor as nat) + w2);
    lemma_number(v.major as nat, v1, w.major as nat, w1);
    assert(v1.skip(1) =~= text::decimal_text(v.minor as nat) + v2);
    assert(w1.skip(1) =~= text::decimal_text(w.minor as nat) + w2);
    lemma_number(v.minor as nat, v2, w.minor as nat, w2);
    assert(v2.skip(1) =~= text::decimal_text(v.patch as nat) + v3);
    assert(w2.skip(1) =~= text::decimal_text(w.patch as nat) + w3);
    lemma_number(v.patch as nat, v3, w.patch as nat, w3);
    lemma_suffix(v, w);
}

/// What a version is, compared to the oldest one that will do.
#[derive(Debug)]
pub enum VersionCheck<S = String> {
    /// It will do.
    Supported,
    /// It is too old, or a pre-release.
    TooOld,
    /// It is not a version.
    Invalid {
        /// Why it is not.
        error: S,
    },
}

impl View for VersionCheck<String> {
    type V = VersionCheck<Seq<char>>;

    open spec fn view(&self) -> VersionCheck<Seq<char>> {
        match self {
            VersionCheck::Supported => VersionCheck::Supported,
            VersionCheck::TooOld => VersionCheck::TooOld,
            VersionCheck::Invalid { error } => VersionCheck::Invalid { error: error@ },
        }
    }
}

/// Whether `s` is a version that is at least 0.2.9.
pub open spec fn checked(s: Seq<char>) -> VersionCheck<Seq<char>> {
    if is_version_at_least(s, oldest()) {
        VersionCheck::Supported
    } else if is_version(s) {
        VersionCheck::TooOld
    } else {
        VersionCheck::Invalid { error: semver_complaint(s) }
    }
}

/// A version will do exactly if it is no pre-release and its numbers are 0.2.9 or more,
/// compared one after the other. What is not the text of a version is invalid.
pub proof fn check_is_by_number(s: Seq<char>)
    ensures
        checked(s) is Supported <==> exists|v: Version<Seq<char>>|
            {
                &&& #[trigger] v.valid()
                &&& v.text() == s
                &&& v.pre.len() == 0
                &&& v.major > 0 || v.minor > 2 || (v.minor == 2 && v.patch >= 9)
            },
        checked(s) matches VersionCheck::Invalid { error } ==> error == semver_complaint(s),
        checked(s) is Invalid <==> !(exists|v: Version<Seq<char>>|
            #[trigger] v.valid() && v.text() == s),
{
    if checked(s) is Supported {
        let v = choose|v: Version<Seq<char>>| #[trigger]
            v.valid() && v.text() == s && v.at_least(oldest());
        assert(v.valid() && v.text() == s && v.pre.len() == 0 && (v.major > 0 || v.minor > 2 || (
        v.minor == 2 && v.patch >= 9)));
    }
    if exists|v: Version<Seq<char>>|
        {
            &&& #[trigger] v.valid()
            &&& v.text() == s
            &&& v.pre.len() == 0
            &&& v.major > 0 || v.minor > 2 || (v.minor == 2 && v.patch >= 9)
        } {
        let v = choose|v: Version<Seq<char>>|
            {
                &&& #[trigger] v.valid()
                &&& v.text() == s
                &&& v.pre.len() == 0
                &&& v.major > 0 || v.minor > 2 || (v.minor == 2 && v.patch >= 9)
            };
        assert(v.at_least(oldest()));
    }
}

/// The text of a version: its three numbers with dots between them, and then, if it
/// has them, a hyphen and the pre-release identifiers, a plus and the build identifiers.
pub proof fn version_text_shows_every_part(v: Version<Seq<char>>)
    ensures
        v.text() == text::decimal_text(v.major as nat) + "."@ + text::decimal_text(v.minor as nat)
            + "."@ + text::decimal_text(v.patch as nat) + (if v.pre.len() > 0 {
            "-"@ + v.pre
        } else {
            Seq::empty()
        }) + (if v.build.len() > 0 {
            "+"@ + v.build
        } else {
            Seq::empty()
        }),
{
    reveal_strlit(".");
    reveal_strlit("-");
    reveal_strlit("+");
    assert("."@ =~= seq!['.']);
    assert("-"@ =~= seq!['-']);
    assert("+"@ =~= seq!['+']);
    assert(v.text() =~= text::decimal_text(v.major as nat) + "."@ + text::decimal_text(
        v.minor as nat,
    ) + "."@ + text::decimal_text(v.patch as nat) + (if v.pre.len() > 0 {
        "-"@ + v.pre
    } else {
        Seq::empty()
    }) + (if v.build.len() > 0 {
        "+"@ + v.build
    } else {
        Seq::empty()
    }));
}

/// Whether `s` is a version that is at least 0.2.9.
pub fn check_version(s: &str) -> (check: VersionCheck)
    requires
        s@.len() <= VERSION_TEXT_MAX,
    ensures
        check@ == checked(s@),
{
    match semver_parse(s) {
        Err(error) => VersionCheck::Invalid { error },
        Ok(v) => {
            proof {
                reveal_strlit(">=0.2.9");
                reveal_strlit(">=");
                reveal_strlit(".");
                assert(">=0.2.9"@ =~= at_least_text(oldest()));
                assert forall|w: Version<Seq<char>>| #[trigger]
                    w.valid() && w.text() == s@ implies w == v@ by {
                    version_is_unique(w, v@);
                }
            }
            match semver_matches(">=0.2.9", &v) {
                Ok(true) => VersionCheck::Supported,
                _ => VersionCheck::TooOld,
            }
        },
    }
}

/// The models of a version and of a check have what these have.
pub proof fn version_models_are_faithful(v: Version, check: VersionCheck)
    ensures
        v@.major == v.major,
        v@.minor == v.minor,
        v@.patch == v.patch,
        v@.pre == v.pre@,
        v@.build == v.build@,
        match (check, check@) {
            (VersionCheck::Supported, VersionCheck::Supported) => true,
            (VersionCheck::TooOld, VersionCheck::TooOld) => true,
            (VersionCheck::Invalid { error }, VersionCheck::Invalid { error: e }) => e == error@,
            _ => false,
        },
{
}

} // verus!
