//! Building the version index of one artifact from a listing of its
//! directory.

use vstd::prelude::*;

use crate::error::Error;
use crate::maven::segments;
use crate::metadata::{
    version_views, xml_of, ArtifactId, GroupId, LastUpdated, Latest, Metadata, Release, Timestamp,
    Version, Versioning, Versions, serialize_xml,
};
use crate::repo::{escapes_root, RepoService};
use crate::sort::{sort_lexical, sorted};
use crate::text::{join, join_range, lex_le, push_char, push_str, replace_all, replace_char, split_on, views};

verus! {

/// One child of a version directory as the host lists it: its name when
/// that decodes as text, and whether it is a directory.
#[derive(Debug, Clone)]
pub struct DirEntry {
    pub name: Option<String>,
    pub is_dir: bool,
}

/// Where the versions of one artifact live.
#[derive(Debug, Clone)]
pub struct MetadataLocation {
    pub group_id: String,
    pub artifact_id: String,
    /// `root/group/as/path/artifact/`.
    pub dir: String,
}

/// The version names in a listing: the children that are directories and
/// whose names decode, in listing order.
pub open spec fn version_names(entries: Seq<DirEntry>) -> Seq<Seq<char>>
    decreases entries.len(),
{
    if entries.len() == 0 {
        Seq::<Seq<char>>::empty()
    } else {
        let prev = version_names(entries.drop_last());
        let e = entries.last();
        if e.is_dir && e.name is Some {
            prev.push(e.name->Some_0@)
        } else {
            prev
        }
    }
}

/// A metadata path reads `<prefix>/<group...>/<artifact>/<file>` with at
/// least one group segment.
pub open spec fn metadata_url_well_formed(url: Seq<char>) -> bool {
    segments(url).len() >= 4
}

pub open spec fn metadata_group(url: Seq<char>) -> Seq<char> {
    let p = segments(url);
    join(p.subrange(1, p.len() - 2), '.')
}

pub open spec fn metadata_artifact(url: Seq<char>) -> Seq<char> {
    let p = segments(url);
    p[p.len() - 2]
}

/// The directory of an artifact's versions under `root`.
pub open spec fn versions_dir(root: Seq<char>, group: Seq<char>, artifact: Seq<char>) -> Seq<char> {
    root.push('/') + replace_char(group, '.', '/') + seq!['/'] + artifact + seq!['/']
}

/// `m` is the index of `names` for the artifact at `loc`, stamped `stamp`:
/// the versions are those names in ascending lexical order, and latest and
/// release are both the greatest of them.
pub open spec fn index_of(loc: MetadataLocation, names: Seq<Seq<char>>, stamp: Seq<char>, m: Metadata) -> bool {
    let vs = version_views(m.versioning.versions.version@);
    &&& m.group_id.body@ == loc.group_id@
    &&& m.artifact_id.body@ == loc.artifact_id@
    &&& vs.to_multiset() == names.to_multiset()
    &&& sorted(vs)
    &&& vs.len() > 0
    &&& m.versioning.latest.body@ == vs.last()
    &&& m.versioning.release.body@ == vs.last()
    &&& m.versioning.last_updated.body@ == stamp
}

/// In an index, latest and release are both the greatest version in
/// lexical order: no version comes after them.
pub proof fn lemma_latest_is_greatest(loc: MetadataLocation, names: Seq<Seq<char>>, stamp: Seq<char>, m: Metadata)
    requires
        index_of(loc, names, stamp, m),
    ensures
        ({
            let vs = version_views(m.versioning.versions.version@);
            &&& m.versioning.latest.body@ == m.versioning.release.body@
            &&& names.contains(m.versioning.latest.body@)
            &&& forall|i: int| 0 <= i < vs.len() ==> lex_le(#[trigger] vs[i], m.versioning.latest.body@)
        }),
{
    let vs = version_views(m.versioning.versions.version@);
    assert forall|i: int| 0 <= i < vs.len() implies lex_le(#[trigger] vs[i], m.versioning.latest.body@) by {
        if i < vs.len() - 1 {
            assert(lex_le(vs[i], vs[vs.len() - 1]));
        }
    }
    vstd::seq_lib::to_multiset_contains(vs, vs.last());
    vstd::seq_lib::to_multiset_contains(names, vs.last());
    assert(vs.contains(vs.last())) by {
        assert(vs[vs.len() - 1] == vs.last());
    }
}

/// Whether a listing yields an index at all.
pub open spec fn listing_has_versions(listing: Option<Vec<DirEntry>>) -> bool {
    listing matches Some(l) && version_names(l@).len() > 0
}

/// The version names of a listing.
pub fn select_versions(entries: &Vec<DirEntry>) -> (r: Vec<String>)
    ensures
        views(r@) == version_names(entries@),
{
    let mut out: Vec<String> = Vec::new();
    let mut i: usize = 0;
    while i < entries.len()
        invariant
            i <= entries@.len(),
            views(out@) == version_names(entries@.subrange(0, i as int)),
        decreases entries@.len() - i,
    {
        let e = &entries[i];
        assert(entries@.subrange(0, i + 1).drop_last() =~= entries@.subrange(0, i as int));
        if e.is_dir {
            match &e.name {
                Some(n) => {
                    let ghost before = out@;
                    out.push(n.clone());
                    assert(views(out@) =~= views(before).push(n@));
                },
                None => {},
            }
        }
        i = i + 1;
    }
    assert(entries@.subrange(0, entries@.len() as int) =~= entries@);
    out
}

/// The index of a listing, stamped with `stamp`; no listing, or one
/// without any version directory, yields no index.
pub fn build_metadata(location: &MetadataLocation, listing: Option<Vec<DirEntry>>, stamp: &Timestamp) -> (r:
    Result<Metadata, Error>)
    requires
        stamp.wf(),
    ensures
        r is Ok <==> listing_has_versions(listing),
        r is Err ==> r->Err_0 is MetadataGenerationFailed,
        r matches Ok(m) ==> index_of(*location, version_names(listing->Some_0@), stamp.text(), m),
{
    let entries = match listing {
        Some(e) => e,
        None => {
            return Err(Error::MetadataGenerationFailed(location.dir.clone()));
        },
    };
    let names = select_versions(&entries);
    if names.len() == 0 {
        return Err(Error::MetadataGenerationFailed(location.dir.clone()));
    }
    let ordered = sort_lexical(names);
    proof {
        vstd::seq_lib::to_multiset_len(views(ordered@));
        vstd::seq_lib::to_multiset_len(views(names@));
    }
    let n = ordered.len();
    let last = ordered[n - 1].clone();
    assert(last@ == views(ordered@).last());
    let mut versions: Vec<Version> = Vec::new();
    let mut i: usize = 0;
    while i < n
        invariant
            n == ordered@.len(),
            i <= n,
            version_views(versions@) == views(ordered@).subrange(0, i as int),
        decreases n - i,
    {
        let ghost before = versions@;
        let v = ordered[i].clone();
        assert(v@ == views(ordered@)[i as int]);
        versions.push(Version { version: v });
        assert(version_views(versions@) =~= version_views(before).push(v@));
        assert(version_views(versions@) =~= views(ordered@).subrange(0, i + 1));
        i = i + 1;
    }
    assert(views(ordered@).subrange(0, n as int) =~= views(ordered@));
    let versioning = Versioning {
        latest: Latest { body: last.clone() },
        release: Release { body: last },
        versions: Versions { version: versions },
        last_updated: LastUpdated { body: stamp.format() },
    };
    Ok(
        Metadata {
            group_id: GroupId { body: location.group_id.clone() },
            artifact_id: ArtifactId { body: location.artifact_id.clone() },
            versioning,
        },
    )
}

/// Relies on time's `OffsetDateTime::now_utc` and its getters `year`,
/// `month`, `day`, `hour`, `minute`, `second`: `u8::from(Month)` is 1 to 12,
/// and the getters document day in 1..=31, hour in 0..24, minute and second
/// in 0..60. The instant itself is whatever the clock says.
#[verifier::external_body]
fn utc_now() -> (r: (i32, u8, u8, u8, u8, u8))
    ensures
        1 <= r.1 <= 12,
        1 <= r.2 <= 31,
        r.3 < 24,
        r.4 < 60,
        r.5 < 60,
{
    let now = time::OffsetDateTime::now_utc();
    (now.year(), u8::from(now.month()), now.day(), now.hour(), now.minute(), now.second())
}

impl RepoService {
    /// Where the versions named by a metadata path live: the last segment
    /// is the metadata file, the one before it the artifact, and those
    /// before that (after the leading slash) the group, joined with dots.
    pub fn metadata_location(&self, url: &str) -> (r: Result<MetadataLocation, Error>)
        ensures
            r is Ok <==> metadata_url_well_formed(url@) && !escapes_root(url@),
            !metadata_url_well_formed(url@) ==> r is Err && r->Err_0 is MalformedCoordinate,
            metadata_url_well_formed(url@) && escapes_root(url@) ==> r is Err && r->Err_0 is InvalidCoordinate,
            r matches Ok(loc) ==> loc.group_id@ == metadata_group(url@) && loc.artifact_id@
                == metadata_artifact(url@) && loc.dir@ == versions_dir(
                self.root(),
                metadata_group(url@),
                metadata_artifact(url@),
            ),
    {
        let parts = split_on(url, '/');
        let n = parts.len();
        if n < 4 {
            return Err(Error::MalformedCoordinate(url.to_owned()));
        }
        if self.artifact_path(url).is_err() {
            return Err(Error::InvalidCoordinate(url.to_owned()));
        }
        let artifact_id = parts[n - 2].clone();
        assert(views(parts@)[n - 2] == parts@[n - 2]@);
        let group_id = join_range(&parts, 1, n - 2, '.');
        let mut dir = self.conf.repo_path.clone();
        push_char(&mut dir, '/');
        let group_path = replace_all(group_id.as_str(), '.', '/');
        push_str(&mut dir, group_path.as_str());
        push_char(&mut dir, '/');
        push_str(&mut dir, artifact_id.as_str());
        push_char(&mut dir, '/');
        assert(dir@ =~= versions_dir(self.root(), group_id@, artifact_id@));
        Ok(MetadataLocation { group_id, artifact_id, dir })
    }

    /// The XML index of a listing of `location.dir`, stamped with the
    /// current UTC time. `None` stands for a directory that could not be
    /// listed.
    pub fn generate_maven_metadata(&self, location: &MetadataLocation, listing: Option<Vec<DirEntry>>) -> (r:
        Result<String, Error>)
        ensures
            r is Ok <==> listing_has_versions(listing),
            r is Err ==> r->Err_0 is MetadataGenerationFailed,
            r matches Ok(x) ==> exists|m: Metadata, t: Timestamp|
                t.wf() && index_of(*location, version_names(listing->Some_0@), t.text(), m) && x@ == xml_of(m),
    {
        let (year, month, day, hour, minute, second) = utc_now();
        let stamp = match Timestamp::new(year, month, day, hour, minute, second) {
            Some(t) => t,
            None => {
                return Err(Error::MetadataGenerationFailed(location.dir.clone()));
            },
        };
        match build_metadata(location, listing, &stamp) {
            Ok(m) => {
                let ghost gm = m;
                let x = serialize_xml(m);
                assert(x@ == xml_of(gm));
                Ok(x)
            },
            Err(e) => Err(e),
        }
    }
}

} // verus!
