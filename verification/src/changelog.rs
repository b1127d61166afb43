//! The changelog document: its sections, what each one says, and the
//! versions with their notes and dates that are kept from it.

use crate::date::{chrono_parse_date, Date};
use crate::precedence::release_order;
use crate::text::{
    blank, join_lines, lines_after, lines_from, rejoin_lines, run, skip_blank, skip_solid, solid,
    text_of, to_chars,
};
use crate::version::{lenient_parse, parse_lenient_version, Version, VersionView};
use regex::RegexBuilder;
use vstd::prelude::*;

verus! {

/// Why a run cannot go on.
#[derive(Debug)]
pub enum ReleaseError {
    /// The section marker is no pattern that `regex` accepts.
    Marker,
    /// A section holds no calendar day where its date is looked for; the
    /// text found there comes with it.
    Date { text: String },
    /// A section's version token is no version, even with a patch number
    /// supplied; the token comes with it.
    Version { token: String },
    /// No version of the changelog has been released yet.
    NoRelease,
    /// The versions after the stable one have a minor number beyond 64
    /// bits.
    MinorLimit,
}

/// A `ReleaseError` with its texts as sequences of characters.
pub enum Fault {
    Marker,
    Date { text: Seq<char> },
    Version { token: Seq<char> },
    NoRelease,
    MinorLimit,
}

impl View for ReleaseError {
    type V = Fault;

    open spec fn view(&self) -> Fault {
        match self {
            ReleaseError::Marker => Fault::Marker,
            ReleaseError::Date { text } => Fault::Date { text: text@ },
            ReleaseError::Version { token } => Fault::Version { token: token@ },
            ReleaseError::NoRelease => Fault::NoRelease,
            ReleaseError::MinorLimit => Fault::MinorLimit,
        }
    }
}

/// What is reported of a fault.
pub open spec fn fault_message(fault: Fault) -> Seq<char> {
    match fault {
        Fault::Marker => "The section marker is no pattern"@,
        Fault::Date { text } => "No release date in '"@ + text + "'"@,
        Fault::Version { token } => "Lenient version parsing failed for '"@ + token + "'"@,
        Fault::NoRelease => "No version of the changelog is released"@,
        Fault::MinorLimit => "The minor number of the stable version is too large"@,
    }
}

impl ReleaseError {
    /// What is reported of the error: what failed, and on which text.
    pub fn message(&self) -> (report: String)
        ensures
            report@ == fault_message(self@),
    {
        match self {
            ReleaseError::Marker => String::from_str("The section marker is no pattern"),
            ReleaseError::Date { text } => {
                let mut report = String::from_str("No release date in '");
                report.append(text.as_str());
                report.append("'");
                report
            },
            ReleaseError::Version { token } => {
                let mut report = String::from_str("Lenient version parsing failed for '");
                report.append(token.as_str());
                report.append("'");
                report
            },
            ReleaseError::NoRelease => String::from_str("No version of the changelog is released"),
            ReleaseError::MinorLimit => String::from_str(
                "The minor number of the stable version is too large",
            ),
        }
    }
}

/// One version of the changelog: its notes and the day of its release.
#[derive(Debug)]
pub struct ChangelogEntry {
    pub version: Version,
    pub body: String,
    pub date: Date,
}

/// A `ChangelogEntry` by the views of its parts.
pub struct EntryView {
    pub version: VersionView,
    pub body: Seq<char>,
    pub date: int,
}

impl View for ChangelogEntry {
    type V = EntryView;

    open spec fn view(&self) -> EntryView {
        EntryView { version: self.version@, body: self.body@, date: self.date@ }
    }
}

/// The entries by their views.
pub open spec fn entry_views(entries: Seq<ChangelogEntry>) -> Seq<EntryView> {
    Seq::new(entries.len(), |i: int| entries[i]@)
}

/// The index of the first entry at or after `from` that is for version
/// `v`, or the number of entries.
pub open spec fn place_of(log: Seq<EntryView>, v: VersionView, from: int) -> int
    decreases log.len() - from,
{
    if from < 0 || from >= log.len() {
        log.len() as int
    } else if log[from].version == v {
        from
    } else {
        place_of(log, v, from + 1)
    }
}

/// The first place of a version is where no earlier entry has it.
pub proof fn lemma_place_of(log: Seq<EntryView>, v: VersionView, from: int)
    requires
        0 <= from <= log.len(),
    ensures
        from <= place_of(log, v, from) <= log.len(),
        forall|i: int| from <= i < place_of(log, v, from) ==> (#[trigger] log[i]).version != v,
        place_of(log, v, from) < log.len() ==> log[place_of(log, v, from)].version == v,
    decreases log.len() - from,
{
    if from < log.len() && log[from].version != v {
        lemma_place_of(log, v, from + 1);
    }
}

/// Whether the log has an entry for version `v`.
pub open spec fn has_version(log: Seq<EntryView>, v: VersionView) -> bool {
    place_of(log, v, 0) < log.len()
}

/// No two entries are for the same version.
pub open spec fn distinct_versions(log: Seq<EntryView>) -> bool {
    forall|i: int, j: int|
        0 <= i < j < log.len() ==> (#[trigger] log[i]).version != (#[trigger] log[j]).version
}

/// The log once `entry` is recorded: it takes the place of the entry for
/// the same version, or comes last where there is none.
pub open spec fn record(log: Seq<EntryView>, entry: EntryView) -> Seq<EntryView> {
    let at = place_of(log, entry.version, 0);
    if at < log.len() {
        log.update(at, entry)
    } else {
        log.push(entry)
    }
}

/// Recording keeps the versions distinct, and the recorded entry is then
/// the one for its version.
pub proof fn lemma_record(log: Seq<EntryView>, entry: EntryView)
    requires
        distinct_versions(log),
    ensures
        distinct_versions(record(log, entry)),
        has_version(record(log, entry), entry.version),
        record(log, entry)[place_of(record(log, entry), entry.version, 0)] == entry,
        forall|v: VersionView|
            v != entry.version ==> (#[trigger] has_version(record(log, entry), v) <==> has_version(
                log,
                v,
            )),
{
    let after = record(log, entry);
    let at = place_of(log, entry.version, 0);
    lemma_place_of(log, entry.version, 0);
    lemma_place_of(after, entry.version, 0);
    assert(after[at].version == entry.version);
    assert forall|v: VersionView| v != entry.version implies (#[trigger] has_version(after, v)
        <==> has_version(log, v)) by {
        lemma_place_of(log, v, 0);
        lemma_place_of(after, v, 0);
        let p = place_of(log, v, 0);
        let q = place_of(after, v, 0);
        if p < log.len() {
            assert(after[p].version == v);
        }
        if q < after.len() {
            assert(q < log.len());
            assert(log[q].version == v);
        }
    }
}

/// The versions of the changelog with their notes and dates, in the order
/// in which each version first came up. No version occurs twice.
#[derive(Debug)]
pub struct Changelog {
    pub entries: Vec<ChangelogEntry>,
}

impl View for Changelog {
    type V = Seq<EntryView>;

    open spec fn view(&self) -> Seq<EntryView> {
        entry_views(self.entries@)
    }
}

impl Changelog {
    /// No two entries are for the same version.
    pub open spec fn well_formed(&self) -> bool {
        distinct_versions(self@)
    }

    /// A changelog without entries.
    pub fn new() -> (log: Changelog)
        ensures
            log@ == Seq::<EntryView>::empty(),
            log.well_formed(),
    {
        let log = Changelog { entries: Vec::new() };
        assert(log@ =~= Seq::<EntryView>::empty());
        log
    }

    /// How many versions the changelog holds.
    pub fn len(&self) -> (n: usize)
        ensures
            n == self@.len(),
    {
        self.entries.len()
    }

    /// The index of the entry for `version`, if there is one.
    pub fn find(&self, version: &Version) -> (found: Option<usize>)
        ensures
            match found {
                Some(i) => i == place_of(self@, version@, 0) && i < self@.len(),
                None => !has_version(self@, version@),
            },
    {
        let mut i: usize = 0;
        while i < self.entries.len()
            invariant
                i <= self.entries.len(),
                place_of(self@, version@, 0) == place_of(self@, version@, i as int),
            decreases self.entries.len() - i,
        {
            if self.entries[i].version.same_as(version) {
                return Some(i);
            }
            i += 1;
        }
        None
    }

    /// Whether the changelog has an entry for `version`.
    pub fn contains(&self, version: &Version) -> (found: bool)
        ensures
            found == has_version(self@, version@),
    {
        self.find(version).is_some()
    }

    /// Records an entry: it takes the place of the entry for the same
    /// version, or comes last where there is none.
    pub fn insert(&mut self, entry: ChangelogEntry)
        requires
            old(self).well_formed(),
        ensures
            final(self)@ == record(old(self)@, entry@),
            final(self).well_formed(),
    {
        proof {
            lemma_record(self@, entry@);
        }
        match self.find(&entry.version) {
            Some(i) => {
                self.entries.set(i, entry);
                assert(self@ =~= record(old(self)@, entry@));
            },
            None => {
                self.entries.push(entry);
                assert(self@ =~= record(old(self)@, entry@));
            },
        }
    }
}

/// What one section of the changelog says, before its version and date
/// are read.
pub enum Section {
    /// Nothing: the section has no white space in it.
    Blank,
    /// A version token, but fewer than eleven characters where the date is
    /// looked for: `found` is what stands there.
    Undated { found: Seq<char> },
    /// A version token, the ten characters of the date, and the notes.
    Dated { token: Seq<char>, date: Seq<char>, body: Seq<char> },
}

/// Where the date of a section is looked for: behind the first white
/// space and any white space that follows it. `gap` is the index of the
/// first white space.
pub open spec fn date_place(s: Seq<char>, gap: int) -> int {
    gap + 1 + run(s, gap + 1, blank())
}

/// Reads one section. The version token runs up to the first white space.
/// The date is the ten characters behind the one that opens it, which is
/// the first after the white space. The notes are the lines below the
/// line of the token, without the first two of them: the line under the
/// title and the empty line.
pub open spec fn read_section(s: Seq<char>) -> Section {
    let gap = run(s, 0, solid()) as int;
    if gap >= s.len() {
        Section::Blank
    } else {
        let at = date_place(s, gap);
        if at + 11 > s.len() {
            Section::Undated { found: s.subrange(at, s.len() as int) }
        } else {
            Section::Dated {
                token: s.take(gap),
                date: s.subrange(at + 1, at + 11),
                body: join_lines(lines_after(lines_from(s, gap), 3)),
            }
        }
    }
}

/// The entry that a section stands for: none for a blank section, a fault
/// where the date or, after it, the version cannot be read.
pub open spec fn entry_of(section: Section) -> Result<Option<EntryView>, Fault> {
    match section {
        Section::Blank => Ok(None),
        Section::Undated { found } => Err(Fault::Date { text: found }),
        Section::Dated { token, date, body } => match chrono_parse_date(date) {
            None => Err(Fault::Date { text: date }),
            Some(day) => match lenient_parse(token) {
                None => Err(Fault::Version { token }),
                Some(version) => Ok(Some(EntryView { version, body, date: day })),
            },
        },
    }
}

/// Version 1.0.0, below and at which nothing is kept.
pub open spec fn floor_version() -> VersionView {
    VersionView { major: 1, minor: 0, patch: 0, pre: Seq::empty(), build: Seq::empty() }
}

/// Whether a version is kept: its numbers come after 1.0.0.
pub open spec fn above_floor(v: VersionView) -> bool {
    release_order(v, floor_version()) > 0
}

/// The log after one more section.
pub open spec fn with_section(log: Seq<EntryView>, s: Seq<char>) -> Result<Seq<EntryView>, Fault> {
    match entry_of(read_section(s)) {
        Err(fault) => Err(fault),
        Ok(None) => Ok(log),
        Ok(Some(entry)) => if above_floor(entry.version) {
            Ok(record(log, entry))
        } else {
            Ok(log)
        },
    }
}

/// The log of the sections before `upto`, the first of which is the
/// preamble and never read; the first fault ends the reading.
pub open spec fn log_of(sections: Seq<Seq<char>>, upto: int) -> Result<Seq<EntryView>, Fault>
    decreases upto,
{
    if upto <= 1 {
        Ok(Seq::empty())
    } else {
        match log_of(sections, upto - 1) {
            Err(fault) => Err(fault),
            Ok(log) => with_section(log, sections[upto - 1]),
        }
    }
}

/// A fault ends the reading: the sections behind it change nothing.
pub proof fn lemma_fault_is_final(sections: Seq<Seq<char>>, at: int, upto: int)
    requires
        at <= upto,
        log_of(sections, at) is Err,
    ensures
        log_of(sections, upto) == log_of(sections, at),
    decreases upto - at,
{
    if at < upto {
        lemma_fault_is_final(sections, at, upto - 1);
    }
}

/// What is read from the sections holds each version once, and only
/// versions above 1.0.0.
pub proof fn lemma_log_of(sections: Seq<Seq<char>>, upto: int)
    ensures
        log_of(sections, upto) matches Ok(log) ==> distinct_versions(log) && forall|k: int|
            0 <= k < log.len() ==> above_floor((#[trigger] log[k]).version),
    decreases upto,
{
    if upto > 1 {
        lemma_log_of(sections, upto - 1);
        if let Ok(earlier) = log_of(sections, upto - 1) {
            if let Ok(Some(entry)) = entry_of(read_section(sections[upto - 1])) {
                lemma_record(earlier, entry);
                lemma_place_of(earlier, entry.version, 0);
            }
        }
    }
}

/// The texts by their views.
pub open spec fn text_views(texts: Seq<String>) -> Seq<Seq<char>> {
    Seq::new(texts.len(), |i: int| texts[i]@)
}

/// Reads one section of the changelog.
pub fn parse_section(section: &str) -> (found: Result<Option<ChangelogEntry>, ReleaseError>)
    ensures
        match found {
            Ok(Some(entry)) => entry_of(read_section(section@)) == Ok::<Option<EntryView>, Fault>(
                Some(entry@),
            ) && entry.version@.well_formed(),
            Ok(None) => entry_of(read_section(section@)) == Ok::<Option<EntryView>, Fault>(None),
            Err(e) => entry_of(read_section(section@)) == Err::<Option<EntryView>, Fault>(e@),
        },
{
    let chars = to_chars(section);
    let gap = skip_solid(&chars, 0);
    if gap >= chars.len() {
        return Ok(None);
    }
    let at = skip_blank(&chars, gap + 1);
    if chars.len() - at < 11 {
        return Err(ReleaseError::Date { text: text_of(&chars, at, chars.len()) });
    }
    let date_text = text_of(&chars, at + 1, at + 11);
    let date = match Date::parse(date_text.as_str()) {
        Some(day) => day,
        None => {
            return Err(ReleaseError::Date { text: date_text });
        },
    };
    let token = text_of(&chars, 0, gap);
    assert(token@ == section@.take(gap as int));
    let version = match parse_lenient_version(token.as_str()) {
        Some(v) => v,
        None => {
            return Err(ReleaseError::Version { token });
        },
    };
    let body = rejoin_lines(&chars, gap, 3);
    Ok(Some(ChangelogEntry { version, body, date }))
}

/// Whether a version is kept: its numbers come after 1.0.0.
pub fn is_above_floor(version: &Version) -> (kept: bool)
    ensures
        kept == above_floor(version@),
{
    version.major() > 1 || (version.major() == 1 && (version.minor() > 0 || version.patch() > 0))
}

/// Reads the sections that the marker parts the changelog into. The first
/// is what stands before the first marker and is not read. Of the others,
/// each one with a version above 1.0.0 is recorded; a later section for
/// the same version takes the place of the earlier one. The first section
/// that cannot be read ends the reading with its fault.
pub fn read_sections(sections: &Vec<String>) -> (found: Result<Changelog, ReleaseError>)
    ensures
        match found {
            Ok(log) => log_of(text_views(sections@), sections@.len() as int) == Ok::<
                Seq<EntryView>,
                Fault,
            >(log@) && log.well_formed(),
            Err(e) => log_of(text_views(sections@), sections@.len() as int) == Err::<
                Seq<EntryView>,
                Fault,
            >(e@),
        },
{
    let mut log = Changelog::new();
    let mut i: usize = 1;
    if sections.len() <= 1 {
        return Ok(log);
    }
    while i < sections.len()
        invariant
            1 <= i <= sections.len(),
            log.well_formed(),
            log_of(text_views(sections@), i as int) == Ok::<Seq<EntryView>, Fault>(log@),
        decreases sections.len() - i,
    {
        assert(text_views(sections@)[i as int] == sections@[i as int]@);
        match parse_section(sections[i].as_str()) {
            Err(e) => {
                proof {
                    lemma_fault_is_final(
                        text_views(sections@),
                        i as int + 1,
                        sections@.len() as int,
                    );
                }
                return Err(e);
            },
            Ok(None) => {},
            Ok(Some(entry)) => {
                if is_above_floor(&entry.version) {
                    log.insert(entry);
                }
            },
        }
        i += 1;
    }
    Ok(log)
}

/// The pieces that `regex` parts a text into when it splits it at every
/// match of a pattern, as `Regex::split` yields them; nothing where the
/// pattern does not compile. `multi_line` is the flag of that name.
pub uninterp spec fn regex_split(pattern: Seq<char>, multi_line: bool, text: Seq<char>) -> Option<
    Seq<Seq<char>>,
>;

/// Compiles the pattern with `RegexBuilder` and calls `Regex::split`.
#[verifier::external_body]
fn split_at_pattern(pattern: &str, multi_line: bool, text: &str) -> (pieces: Option<Vec<String>>)
    ensures
        match pieces {
            Some(found) => regex_split(pattern@, multi_line, text@) == Some(text_views(found@)),
            None => regex_split(pattern@, multi_line, text@) is None,
        },
{
    match RegexBuilder::new(pattern).multi_line(multi_line).build() {
        Ok(marker) => Some(marker.split(text).map(|piece| piece.to_string()).collect()),
        Err(_) => None,
    }
}

/// The pattern of the marker that opens a section: the word `Version` at
/// the start of a line and the white space behind it.
pub open spec fn section_marker() -> Seq<char> {
    seq!['^', 'V', 'e', 'r', 's', 'i', 'o', 'n', '\\', 's', '+']
}

/// The changelog that a document stands for.
pub open spec fn changelog_of(document: Seq<char>) -> Result<Seq<EntryView>, Fault> {
    match regex_split(section_marker(), true, document) {
        None => Err(Fault::Marker),
        Some(sections) => log_of(sections, sections.len() as int),
    }
}

/// Reads a changelog document: parts it at the section markers and reads
/// the sections.
pub fn read_changelog(document: &str) -> (found: Result<Changelog, ReleaseError>)
    ensures
        match found {
            Ok(log) => changelog_of(document@) == Ok::<Seq<EntryView>, Fault>(log@)
                && log.well_formed(),
            Err(e) => changelog_of(document@) == Err::<Seq<EntryView>, Fault>(e@),
        },
{
    let marker = "^Version\\s+";
    proof {
        reveal_strlit("^Version\\s+");
        assert(marker@ =~= section_marker());
    }
    match split_at_pattern(marker, true, document) {
        None => Err(ReleaseError::Marker),
        Some(sections) => read_sections(&sections),
    }
}

} // verus!
