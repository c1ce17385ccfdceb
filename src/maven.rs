//! Maven coordinates as they appear in a request path.

use vstd::prelude::*;

use crate::error::Error;
use crate::text::{join, join_range, split, split_on, views};

verus! {

/// The coordinate of one artifact file.
pub struct Artifact {
    pub group_id: String,
    pub artifact_name: String,
    pub version: String,
}

/// The segments of a path cut at `/`; the first piece is whatever stands
/// before the leading slash.
pub open spec fn segments(url: Seq<char>) -> Seq<Seq<char>> {
    split(url, '/')
}

/// An artifact path reads `<prefix>/<group...>/<artifact>/<version>/<file>`
/// (the group may be empty).
pub open spec fn artifact_url_well_formed(url: Seq<char>) -> bool {
    segments(url).len() >= 4
}

pub open spec fn artifact_group(url: Seq<char>) -> Seq<char> {
    let p = segments(url);
    join(p.subrange(1, p.len() - 3), '.')
}

pub open spec fn artifact_name_of(url: Seq<char>) -> Seq<char> {
    let p = segments(url);
    p[p.len() - 3]
}

pub open spec fn artifact_version(url: Seq<char>) -> Seq<char> {
    let p = segments(url);
    p[p.len() - 2]
}

/// Reads group, artifact name and version out of an artifact path.
pub fn extract_artifact_from_url(url: String) -> (r: Result<Artifact, Error>)
    ensures
        r is Ok <==> artifact_url_well_formed(url@),
        r is Err ==> r->Err_0 is MalformedCoordinate,
        r matches Ok(a) ==> a.group_id@ == artifact_group(url@) && a.artifact_name@
            == artifact_name_of(url@) && a.version@ == artifact_version(url@),
{
    let parts = split_on(url.as_str(), '/');
    let n = parts.len();
    if n < 4 {
        return Err(Error::MalformedCoordinate(url));
    }
    let version = parts[n - 2].clone();
    let artifact_name = parts[n - 3].clone();
    let group_id = join_range(&parts, 1, n - 3, '.');
    assert(views(parts@)[n - 2] == parts@[n - 2]@);
    assert(views(parts@)[n - 3] == parts@[n - 3]@);
    Ok(Artifact { group_id, artifact_name, version })
}

} // verus!
