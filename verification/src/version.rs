//! Semantic versions: what a version holds, how its text is read and
//! written, and the versions that follow it on the release train.

use crate::text::{decimal, push_decimal};
use vstd::prelude::*;

verus! {

/// What a version is: three numbers, the pre-release label after the
/// hyphen and the build label after the plus sign, each label empty when
/// the version has none.
pub struct VersionView {
    pub major: nat,
    pub minor: nat,
    pub patch: nat,
    pub pre: Seq<char>,
    pub build: Seq<char>,
}

/// Whether a character may stand in an identifier of a label.
pub open spec fn label_char(c: char) -> bool {
    ('0' <= c && c <= '9') || ('A' <= c && c <= 'Z') || ('a' <= c && c <= 'z') || c == '-'
}

/// Whether a character is a decimal digit.
pub open spec fn digit(c: char) -> bool {
    '0' <= c && c <= '9'
}

/// A label is empty, or identifiers joined by dots: none of them empty,
/// each made of ASCII letters, digits and hyphens.
pub open spec fn dotted_identifiers(s: Seq<char>) -> bool {
    s.len() > 0 ==> {
        &&& forall|i: int| 0 <= i < s.len() ==> label_char(#[trigger] s[i]) || s[i] == '.'
        &&& s[0] != '.'
        &&& s[s.len() - 1] != '.'
        &&& forall|i: int| 0 < i < s.len() ==> !(s[i - 1] == '.' && #[trigger] s[i] == '.')
    }
}

/// Whether `from` and `to` bound one identifier of the label.
pub open spec fn identifier_at(s: Seq<char>, from: int, to: int) -> bool {
    &&& 0 <= from < to <= s.len()
    &&& from == 0 || s[from - 1] == '.'
    &&& to == s.len() || s[to] == '.'
    &&& forall|k: int| from <= k < to ==> #[trigger] s[k] != '.'
}

/// No identifier of more than one character is made of digits alone and
/// begins with a zero.
pub open spec fn numbers_unpadded(s: Seq<char>) -> bool {
    forall|from: int, to: int|
        #![trigger identifier_at(s, from, to)]
        identifier_at(s, from, to) && from + 1 < to && (forall|k: int|
            from <= k < to ==> digit(#[trigger] s[k])) ==> s[from] != '0'
}

/// A pre-release label that a semantic version can carry.
pub open spec fn prerelease_label(s: Seq<char>) -> bool {
    dotted_identifiers(s) && numbers_unpadded(s)
}

/// A build label that a semantic version can carry.
pub open spec fn build_label(s: Seq<char>) -> bool {
    dotted_identifiers(s)
}

impl VersionView {
    /// The labels are ones that a semantic version can carry.
    pub open spec fn well_formed(self) -> bool {
        prerelease_label(self.pre) && build_label(self.build)
    }

    /// The version as it is written: the three numbers with dots between,
    /// then a hyphen and the pre-release label, then a plus sign and the
    /// build label, each only where the label is not empty.
    pub open spec fn text(self) -> Seq<char> {
        decimal(self.major) + seq!['.'] + decimal(self.minor) + seq!['.'] + decimal(self.patch)
            + (if self.pre.len() > 0 {
            seq!['-'] + self.pre
        } else {
            Seq::empty()
        }) + (if self.build.len() > 0 {
            seq!['+'] + self.build
        } else {
            Seq::empty()
        })
    }

    /// The version `steps` minor releases later: no patch number and no
    /// pre-release label.
    pub open spec fn minor_ahead(self, steps: nat) -> VersionView {
        VersionView {
            major: self.major,
            minor: self.minor + steps,
            patch: 0,
            pre: Seq::empty(),
            build: self.build,
        }
    }
}

/// A semantic version. Its labels are always ones that a semantic version
/// can carry: it is made by reading a text, or from another version.
#[derive(Debug)]
pub struct Version {
    major: u64,
    minor: u64,
    patch: u64,
    pre: String,
    build: String,
}

impl View for Version {
    type V = VersionView;

    closed spec fn view(&self) -> VersionView {
        VersionView {
            major: self.major as nat,
            minor: self.minor as nat,
            patch: self.patch as nat,
            pre: self.pre@,
            build: self.build@,
        }
    }
}

/// What `semver::Version::parse` makes of a text: the version it reads, or
/// nothing where it reports an error.
pub uninterp spec fn semver_parse(text: Seq<char>) -> Option<VersionView>;

/// Calls `semver::Version::parse`. The result is the version that the
/// crate reads from the text, field by field, or `None` for its error. The
/// labels of a version that it reads are labels by its own grammar, which
/// `dotted_identifiers` and `numbers_unpadded` restate.
#[verifier::external_body]
fn read_semver(text: &str) -> (found: Option<Version>)
    ensures
        match found {
            Some(v) => semver_parse(text@) == Some(v@) && v@.well_formed(),
            None => semver_parse(text@) is None,
        },
{
    match semver::Version::parse(text) {
        Ok(v) => Some(
            Version {
                major: v.major,
                minor: v.minor,
                patch: v.patch,
                pre: v.pre.as_str().to_string(),
                build: v.build.as_str().to_string(),
            },
        ),
        Err(_) => None,
    }
}

/// How many dots a text holds.
pub open spec fn dot_count(s: Seq<char>) -> nat
    decreases s.len(),
{
    if s.len() == 0 {
        0
    } else if s.last() == '.' {
        dot_count(s.drop_last()) + 1
    } else {
        dot_count(s.drop_last())
    }
}

/// The text that is read in place of a version token: the token itself
/// when it has three parts between dots or more, else the token with a
/// patch number of zero put after it.
pub open spec fn with_patch(token: Seq<char>) -> Seq<char> {
    if dot_count(token) < 2 {
        token + seq!['.', '0']
    } else {
        token
    }
}

/// What a version token stands for when a missing patch number is
/// forgiven.
pub open spec fn lenient_parse(token: Seq<char>) -> Option<VersionView> {
    semver_parse(with_patch(token))
}

impl Version {
    #[verifier::type_invariant]
    spec fn labels_hold(self) -> bool {
        self@.well_formed()
    }

    /// Reads a version as semantic versioning writes it.
    pub fn parse(text: &str) -> (found: Option<Version>)
        ensures
            match found {
                Some(v) => semver_parse(text@) == Some(v@) && v@.well_formed(),
                None => semver_parse(text@) is None,
            },
    {
        match read_semver(text) {
            Some(v) => {
                proof {
                    use_type_invariant(&v);
                }
                Some(v)
            },
            None => None,
        }
    }

    /// The major number.
    pub fn major(&self) -> (n: u64)
        ensures
            n == self@.major,
    {
        self.major
    }

    /// The minor number.
    pub fn minor(&self) -> (n: u64)
        ensures
            n == self@.minor,
    {
        self.minor
    }

    /// The patch number.
    pub fn patch(&self) -> (n: u64)
        ensures
            n == self@.patch,
    {
        self.patch
    }

    /// The pre-release label, empty where the version has none.
    pub fn pre(&self) -> (label: &str)
        ensures
            label@ == self@.pre,
            prerelease_label(label@),
    {
        proof {
            use_type_invariant(self);
        }
        self.pre.as_str()
    }

    /// The build label, empty where the version has none.
    pub fn build(&self) -> (label: &str)
        ensures
            label@ == self@.build,
            build_label(label@),
    {
        proof {
            use_type_invariant(self);
        }
        self.build.as_str()
    }

    /// Whether the two are the same version, labels included.
    pub fn same_as(&self, other: &Version) -> (same: bool)
        ensures
            same == (self@ == other@),
    {
        let same = self.major == other.major && self.minor == other.minor && self.patch
            == other.patch && self.pre == other.pre && self.build == other.build;
        proof {
            if same {
                assert(self@.pre =~= other@.pre);
                assert(self@.build =~= other@.build);
            }
        }
        same
    }

    /// Whether `minor_ahead(steps)` can be held: the minor number stays
    /// within 64 bits.
    pub fn can_advance(&self, steps: u64) -> (fits: bool)
        ensures
            fits == (self@.minor + steps <= u64::MAX),
    {
        self.minor <= u64::MAX - steps
    }

    /// The version `steps` minor releases later.
    pub fn minor_ahead(&self, steps: u64) -> (later: Version)
        requires
            self@.minor + steps <= u64::MAX,
        ensures
            later@ == self@.minor_ahead(steps as nat),
            later@.well_formed(),
    {
        proof {
            use_type_invariant(self);
        }
        let later = Version {
            major: self.major,
            minor: self.minor + steps,
            patch: 0,
            pre: String::new(),
            build: self.build.clone(),
        };
        assert(later@.pre =~= Seq::<char>::empty());
        later
    }

    /// Appends the version as it is written to `out`.
    pub fn push_text(&self, out: &mut String)
        ensures
            final(out)@ == old(out)@ + self@.text(),
    {
        push_decimal(out, self.major);
        out.push('.');
        push_decimal(out, self.minor);
        out.push('.');
        push_decimal(out, self.patch);
        let ghost numbers = decimal(self@.major) + seq!['.'] + decimal(self@.minor) + seq!['.']
            + decimal(self@.patch);
        assert(out@ == old(out)@ + numbers);
        let ghost pre_part = if self@.pre.len() > 0 {
            seq!['-'] + self@.pre
        } else {
            Seq::empty()
        };
        if !self.pre.as_str().is_empty() {
            out.push('-');
            out.append(self.pre.as_str());
        }
        assert(out@ == old(out)@ + (numbers + pre_part));
        let ghost build_part = if self@.build.len() > 0 {
            seq!['+'] + self@.build
        } else {
            Seq::empty()
        };
        if !self.build.as_str().is_empty() {
            out.push('+');
            out.append(self.build.as_str());
        }
        assert(out@ == old(out)@ + (numbers + pre_part + build_part));
    }

    /// The version as it is written.
    pub fn text(&self) -> (out: String)
        ensures
            out@ == self@.text(),
    {
        let mut out = String::new();
        self.push_text(&mut out);
        assert(Seq::<char>::empty() + self@.text() == self@.text());
        out
    }
}

impl PartialEq for Version {
    fn eq(&self, other: &Version) -> (same: bool) {
        self.same_as(other)
    }
}

impl vstd::std_specs::cmp::PartialEqSpecImpl for Version {
    open spec fn obeys_eq_spec() -> bool {
        true
    }

    open spec fn eq_spec(&self, other: &Version) -> bool {
        self@ == other@
    }
}

impl Eq for Version {

}

impl Clone for Version {
    fn clone(&self) -> (copy: Version)
        ensures
            copy@ == self@,
    {
        proof {
            use_type_invariant(self);
        }
        Version {
            major: self.major,
            minor: self.minor,
            patch: self.patch,
            pre: self.pre.clone(),
            build: self.build.clone(),
        }
    }
}

/// Reads a version token, forgiving a missing patch number: a token with
/// fewer than three parts between dots is read with `.0` put after it.
pub fn parse_lenient_version(version: &str) -> (found: Option<Version>)
    ensures
        match found {
            Some(v) => lenient_parse(version@) == Some(v@) && v@.well_formed(),
            None => lenient_parse(version@) is None,
        },
{
    let mut dots: u8 = 0;
    for c in it: version.chars()
        invariant
            it.seq() == version@,
            dots <= 2,
            dots < 2 ==> dots == dot_count(it.seq().take(it.index() as int)),
            dots == 2 ==> dot_count(it.seq().take(it.index() as int)) >= 2,
    {
        assert(it.seq().take(it.index() + 1).drop_last() == it.seq().take(it.index() as int));
        if c == '.' && dots < 2 {
            dots += 1;
        }
    }
    assert(version@.take(version@.len() as int) == version@);
    if dots < 2 {
        let mut padded = String::from_str(version);
        padded.push('.');
        padded.push('0');
        assert(padded@ == version@ + seq!['.', '0']);
        Version::parse(padded.as_str())
    } else {
        Version::parse(version)
    }
}

/// A token that lacks only its patch number reads as the version with a
/// patch number of zero: with one dot in it, the token and the token
/// followed by `.0` stand for the same version.
pub proof fn lemma_missing_patch_reads_as_zero(token: Seq<char>)
    requires
        dot_count(token) == 1,
    ensures
        lenient_parse(token) == lenient_parse(token + seq!['.', '0']),
{
    let padded = token + seq!['.', '0'];
    let middle = token + seq!['.'];
    assert(padded.drop_last() == middle);
    assert(middle.drop_last() == token);
    assert(dot_count(middle) == 2);
    assert(dot_count(padded) == 2);
}

/// A token with three parts or more is read as it stands.
pub proof fn lemma_full_token_read_strictly(token: Seq<char>)
    requires
        dot_count(token) >= 2,
    ensures
        lenient_parse(token) == semver_parse(token),
{
}

} // verus!
