//! The version index of one artifact (`maven-metadata.xml`): its data, the
//! generation timestamp, and its XML form.

use vstd::prelude::*;

use std::cmp::Ordering;

use crate::text::{lex_less, lex_lt, push_char, push_str, str_eq};

verus! {

pub struct GroupId {
    pub body: String,
}

pub struct ArtifactId {
    pub body: String,
}

pub struct Latest {
    pub body: String,
}

pub struct Release {
    pub body: String,
}

pub struct LastUpdated {
    pub body: String,
}

pub struct Version {
    pub version: String,
}

pub struct Versions {
    pub version: Vec<Version>,
}

pub struct Versioning {
    pub latest: Latest,
    pub release: Release,
    pub versions: Versions,
    pub last_updated: LastUpdated,
}

pub struct Metadata {
    pub group_id: GroupId,
    pub artifact_id: ArtifactId,
    pub versioning: Versioning,
}

/// Versions compare as their strings do, in lexical order.
pub open spec fn lex_ordering(a: Seq<char>, b: Seq<char>) -> Ordering {
    if lex_lt(a, b) {
        Ordering::Less
    } else if a == b {
        Ordering::Equal
    } else {
        Ordering::Greater
    }
}

impl PartialEq for Version {
    fn eq(&self, other: &Version) -> bool {
        str_eq(self.version.as_str(), other.version.as_str())
    }
}

impl vstd::std_specs::cmp::PartialEqSpecImpl for Version {
    open spec fn obeys_eq_spec() -> bool {
        true
    }

    open spec fn eq_spec(&self, other: &Version) -> bool {
        self.version@ == other.version@
    }
}

impl PartialOrd for Version {
    fn partial_cmp(&self, other: &Version) -> Option<Ordering> {
        let a = self.version.as_str();
        let b = other.version.as_str();
        if lex_less(a, b) {
            Some(Ordering::Less)
        } else if str_eq(a, b) {
            Some(Ordering::Equal)
        } else {
            Some(Ordering::Greater)
        }
    }
}

impl vstd::std_specs::cmp::PartialOrdSpecImpl for Version {
    open spec fn obeys_partial_cmp_spec() -> bool {
        true
    }

    open spec fn partial_cmp_spec(&self, other: &Version) -> Option<Ordering> {
        Some(lex_ordering(self.version@, other.version@))
    }
}

/// The version strings of a version list.
pub open spec fn version_views(v: Seq<Version>) -> Seq<Seq<char>> {
    Seq::new(v.len(), |i: int| v[i].version@)
}

/// A wall-clock instant in UTC, to the second.
#[derive(Debug, Clone, Copy)]
pub struct Timestamp {
    pub year: i32,
    pub month: u8,
    pub day: u8,
    pub hour: u8,
    pub minute: u8,
    pub second: u8,
}

pub open spec fn digit(n: int) -> char {
    ((48 + n) as u8) as char
}

/// The decimal digits of `n`, without leading zeros.
pub open spec fn decimal(n: nat) -> Seq<char>
    decreases n,
{
    if n < 10 {
        seq![digit(n as int)]
    } else {
        decimal(n / 10).push(digit((n % 10) as int))
    }
}

pub open spec fn two_digits(n: int) -> Seq<char> {
    seq![digit(n / 10), digit(n % 10)]
}

/// A year: its sign when negative, then at least four digits.
pub open spec fn year_text(y: int) -> Seq<char> {
    let n: nat = if y < 0 { (-y) as nat } else { y as nat };
    let digits = if n < 10 {
        seq!['0', '0', '0'] + decimal(n)
    } else if n < 100 {
        seq!['0', '0'] + decimal(n)
    } else if n < 1000 {
        seq!['0'] + decimal(n)
    } else {
        decimal(n)
    };
    if y < 0 {
        seq!['-'] + digits
    } else {
        digits
    }
}

impl Timestamp {
    pub open spec fn wf(self) -> bool {
        &&& 1 <= self.month <= 12
        &&& 1 <= self.day <= 31
        &&& self.hour < 24
        &&& self.minute < 60
        &&& self.second < 60
    }

    /// The `yyyyMMddHHmmss` form.
    pub open spec fn text(self) -> Seq<char> {
        year_text(self.year as int) + two_digits(self.month as int) + two_digits(self.day as int)
            + two_digits(self.hour as int) + two_digits(self.minute as int) + two_digits(
            self.second as int,
        )
    }

    /// The instant with these fields, when each is in its range.
    pub fn new(year: i32, month: u8, day: u8, hour: u8, minute: u8, second: u8) -> (r: Option<Timestamp>)
        ensures
            r is Some <==> 1 <= month <= 12 && 1 <= day <= 31 && hour < 24 && minute < 60 && second < 60,
            r matches Some(t) ==> t.wf() && t.year == year && t.month == month && t.day == day
                && t.hour == hour && t.minute == minute && t.second == second,
    {
        if 1 <= month && month <= 12 && 1 <= day && day <= 31 && hour < 24 && minute < 60 && second < 60 {
            Some(Timestamp { year, month, day, hour, minute, second })
        } else {
            None
        }
    }

    /// Formats as `yyyyMMddHHmmss`.
    pub fn format(&self) -> (r: String)
        requires
            self.wf(),
        ensures
            r@ == self.text(),
    {
        let mut out = String::new();
        let n: u32 = if self.year < 0 {
            (-(self.year as i64)) as u32
        } else {
            self.year as u32
        };
        if self.year < 0 {
            push_char(&mut out, '-');
        }
        if n < 10 {
            push_str(&mut out, "000");
        } else if n < 100 {
            push_str(&mut out, "00");
        } else if n < 1000 {
            push_str(&mut out, "0");
        }
        proof {
            reveal_strlit("000");
            reveal_strlit("00");
            reveal_strlit("0");
        }
        push_decimal(&mut out, n);
        push_two(&mut out, self.month);
        push_two(&mut out, self.day);
        push_two(&mut out, self.hour);
        push_two(&mut out, self.minute);
        push_two(&mut out, self.second);
        assert(out@ =~= self.text());
        out
    }
}

fn push_decimal(out: &mut String, n: u32)
    ensures
        final(out)@ == old(out)@ + decimal(n as nat),
    decreases n,
{
    if n >= 10 {
        push_decimal(out, n / 10);
    }
    push_char(out, digit_char((n % 10) as u8));
    assert(final(out)@ =~= old(out)@ + decimal(n as nat));
}

fn digit_char(d: u8) -> (c: char)
    requires
        d < 10,
    ensures
        c == digit(d as int),
{
    (48u8 + d) as char
}

fn push_two(out: &mut String, n: u8)
    requires
        n < 100,
    ensures
        final(out)@ == old(out)@ + two_digits(n as int),
{
    push_char(out, digit_char(n / 10));
    push_char(out, digit_char(n % 10));
    assert(final(out)@ =~= old(out)@ + two_digits(n as int));
}

/// Text content with `&`, `<` and `>` written as entities.
pub open spec fn escape_text(s: Seq<char>) -> Seq<char>
    decreases s.len(),
{
    if s.len() == 0 {
        Seq::<char>::empty()
    } else {
        escape_text(s.drop_last()) + escape_char(s.last())
    }
}

pub open spec fn escape_char(c: char) -> Seq<char> {
    if c == '&' {
        "&amp;"@
    } else if c == '<' {
        "&lt;"@
    } else if c == '>' {
        "&gt;"@
    } else {
        seq![c]
    }
}

/// `<name>body</name>`, the body escaped.
pub open spec fn element(name: Seq<char>, body: Seq<char>) -> Seq<char> {
    "<"@ + name + ">"@ + escape_text(body) + "</"@ + name + ">"@
}

/// One `<version>` element for each entry, in order.
pub open spec fn versions_xml(v: Seq<Seq<char>>) -> Seq<char>
    decreases v.len(),
{
    if v.len() == 0 {
        Seq::<char>::empty()
    } else {
        versions_xml(v.drop_last()) + element("version"@, v.last())
    }
}

/// The XML document of a version index.
pub open spec fn xml_of(m: Metadata) -> Seq<char> {
    "<?xml version=\"1.0\" encoding=\"UTF-8\"?>"@ + "<metadata>"@ + element("groupId"@, m.group_id.body@)
        + element("artifactId"@, m.artifact_id.body@) + "<versioning>"@ + element(
        "latest"@,
        m.versioning.latest.body@,
    ) + element("release"@, m.versioning.release.body@) + "<versions>"@ + versions_xml(
        version_views(m.versioning.versions.version@),
    ) + "</versions>"@ + element("lastUpdated"@, m.versioning.last_updated.body@) + "</versioning>"@
        + "</metadata>"@
}

fn push_escaped(out: &mut String, body: &str)
    ensures
        final(out)@ == old(out)@ + escape_text(body@),
{
    let n = body.unicode_len();
    let mut i: usize = 0;
    while i < n
        invariant
            n == body@.len(),
            i <= n,
            out@ == old(out)@ + escape_text(body@.subrange(0, i as int)),
        decreases n - i,
    {
        let c = body.get_char(i);
        if c == '&' {
            push_str(out, "&amp;");
        } else if c == '<' {
            push_str(out, "&lt;");
        } else if c == '>' {
            push_str(out, "&gt;");
        } else {
            push_char(out, c);
        }
        assert(body@.subrange(0, i + 1).drop_last() =~= body@.subrange(0, i as int));
        assert(out@ =~= old(out)@ + escape_text(body@.subrange(0, i + 1)));
        i = i + 1;
    }
    assert(body@.subrange(0, n as int) =~= body@);
}

fn push_element(out: &mut String, name: &str, body: &str)
    ensures
        final(out)@ == old(out)@ + element(name@, body@),
{
    push_str(out, "<");
    push_str(out, name);
    push_str(out, ">");
    push_escaped(out, body);
    push_str(out, "</");
    push_str(out, name);
    push_str(out, ">");
    assert(out@ =~= old(out)@ + element(name@, body@));
}

/// Writes the version index as an XML document.
pub fn serialize_xml(metadata: Metadata) -> (r: String)
    ensures
        r@ == xml_of(metadata),
{
    let mut out = String::new();
    push_str(&mut out, "<?xml version=\"1.0\" encoding=\"UTF-8\"?>");
    push_str(&mut out, "<metadata>");
    push_element(&mut out, "groupId", metadata.group_id.body.as_str());
    push_element(&mut out, "artifactId", metadata.artifact_id.body.as_str());
    push_str(&mut out, "<versioning>");
    push_element(&mut out, "latest", metadata.versioning.latest.body.as_str());
    push_element(&mut out, "release", metadata.versioning.release.body.as_str());
    push_str(&mut out, "<versions>");
    let vs = &metadata.versioning.versions.version;
    let ghost start = out@;
    let mut i: usize = 0;
    while i < vs.len()
        invariant
            vs == &metadata.versioning.versions.version,
            i <= vs@.len(),
            out@ == start + versions_xml(version_views(vs@).subrange(0, i as int)),
        decreases vs@.len() - i,
    {
        push_element(&mut out, "version", vs[i].version.as_str());
        assert(version_views(vs@).subrange(0, i + 1).drop_last() =~= version_views(vs@).subrange(0, i as int));
        assert(out@ =~= start + versions_xml(version_views(vs@).subrange(0, i + 1)));
        i = i + 1;
    }
    assert(version_views(vs@).subrange(0, vs@.len() as int) =~= version_views(vs@));
    push_str(&mut out, "</versions>");
    push_element(&mut out, "lastUpdated", metadata.versioning.last_updated.body.as_str());
    push_str(&mut out, "</versioning>");
    push_str(&mut out, "</metadata>");
    assert(out@ =~= xml_of(metadata));
    out
}

} // verus!
