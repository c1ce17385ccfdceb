//! The repository service: credential check, path resolution and write
//! planning over a configured root.

use vstd::prelude::*;

use crate::conf::{accepts, Conf, User};
use crate::error::Error;
use crate::maven::segments;
use crate::store::{read_effect, StoreModel, WritePlan};
use crate::text::{join, join_range, push_char, push_str, split, split_on, str_eq, views};

verus! {

/// Whether some segment of `url` is `..`, which would leave the root.
pub open spec fn escapes_root(url: Seq<char>) -> bool {
    exists|i: int| 0 <= i < segments(url).len() && #[trigger] segments(url)[i] == seq!['.', '.']
}

/// The file name of a path: what follows its last `/`.
pub open spec fn file_name(path: Seq<char>) -> Seq<char> {
    split(path, '/').last()
}

/// A file name has an extension when a dot stands in it after its first
/// character (`lib.jar`, `a.b.c`; not `lib`, `.hidden`).
pub open spec fn has_extension(path: Seq<char>) -> bool {
    exists|i: int| 0 < i < file_name(path).len() && #[trigger] file_name(path)[i] == '.'
}

/// The directory part of a path: everything before its last `/`.
pub open spec fn parent_of(path: Seq<char>) -> Seq<char> {
    join(split(path, '/').drop_last(), '/')
}

/// The store path of a request path under `root`.
pub open spec fn path_under(root: Seq<char>, url: Seq<char>) -> Seq<char> {
    root.push('/') + url
}

/// The repository service over one configuration.
#[derive(Debug, Clone)]
pub struct RepoService {
    pub conf: Conf,
}

impl RepoService {
    pub open spec fn root(&self) -> Seq<char> {
        self.conf.repo_path@
    }

    /// The store path of `url` under this root.
    pub open spec fn store_path(&self, url: Seq<char>) -> Seq<char> {
        path_under(self.root(), url)
    }

    /// The plan that a write of `data` to `url` yields, when it yields one.
    pub open spec fn plan_for(&self, plan: WritePlan, url: Seq<char>, data: Seq<u8>, overwrite: bool) -> bool {
        &&& plan.url@ == url
        &&& plan.path@ == self.store_path(url)
        &&& plan.parent@ == parent_of(self.store_path(url))
        &&& plan.data@ == data
        &&& plan.overwrite == overwrite
    }

    pub fn new(conf: Conf) -> (r: RepoService)
        ensures
            r.conf == conf,
    {
        RepoService { conf }
    }

    /// Succeeds exactly when the pair is one of the configured users.
    pub fn authenticate(&self, user: User) -> (r: Result<(), Error>)
        ensures
            r is Ok <==> accepts(self.conf.users@, user.user@, user.password@),
            r is Err ==> r->Err_0 is AuthenticationError,
    {
        let users = &self.conf.users;
        let mut i: usize = 0;
        while i < users.len()
            invariant
                users == &self.conf.users,
                i <= users@.len(),
                forall|j: int|
                    0 <= j < i ==> !((#[trigger] users@[j]).user@ == user.user@ && users@[j].password@
                        == user.password@),
            decreases users@.len() - i,
        {
            if str_eq(users[i].user.as_str(), user.user.as_str()) && str_eq(
                users[i].password.as_str(),
                user.password.as_str(),
            ) {
                assert(users@[i as int].user@ == user.user@ && users@[i as int].password@ == user.password@);
                assert(accepts(self.conf.users@, user.user@, user.password@));
                return Ok(());
            }
            i = i + 1;
        }
        Err(Error::AuthenticationError)
    }

    fn build_path(&self, url: &str) -> (r: String)
        ensures
            r@ == self.store_path(url@),
    {
        let mut p = self.conf.repo_path.clone();
        push_char(&mut p, '/');
        push_str(&mut p, url);
        p
    }

    /// The store path of `url`, refused when the path would leave the root.
    pub fn artifact_path(&self, url: &str) -> (r: Result<String, Error>)
        ensures
            r is Ok <==> !escapes_root(url@),
            r matches Ok(p) ==> p@ == self.store_path(url@),
            r is Err ==> r->Err_0 is InvalidCoordinate,
    {
        if escapes(url) {
            return Err(Error::InvalidCoordinate(url.to_owned()));
        }
        Ok(self.build_path(url))
    }

    fn write(&self, url: String, data: Vec<u8>, allow_overwrite: bool) -> (r: Result<WritePlan, Error>)
        ensures
            r is Ok <==> !escapes_root(url@) && has_extension(self.store_path(url@)),
            escapes_root(url@) ==> r is Err && r->Err_0 is InvalidCoordinate,
            !escapes_root(url@) && !has_extension(self.store_path(url@)) ==> r is Err
                && r->Err_0 is InvalidArtifactPath,
            r matches Ok(p) ==> self.plan_for(p, url@, data@, allow_overwrite),
    {
        if escapes(url.as_str()) {
            return Err(Error::InvalidCoordinate(url));
        }
        let path = self.build_path(url.as_str());
        let parts = split_on(path.as_str(), '/');
        proof {
            crate::text::lemma_split_nonempty(path@, '/');
        }
        let n = parts.len();
        let name = &parts[n - 1];
        assert(name@ == file_name(path@));
        if !has_dot_after_start(name.as_str()) {
            return Err(Error::InvalidArtifactPath(url));
        }
        let parent = join_range(&parts, 0, n - 1, '/');
        assert(views(parts@).subrange(0, n - 1) =~= split(path@, '/').drop_last());
        Ok(WritePlan { url, path, parent, data, overwrite: allow_overwrite })
    }

    /// Plans a write-once artifact write.
    pub fn write_artifact(&self, artifact_url: String, data: Vec<u8>) -> (r: Result<WritePlan, Error>)
        ensures
            r is Ok <==> !escapes_root(artifact_url@) && has_extension(self.store_path(artifact_url@)),
            escapes_root(artifact_url@) ==> r is Err && r->Err_0 is InvalidCoordinate,
            !escapes_root(artifact_url@) && !has_extension(self.store_path(artifact_url@)) ==> r is Err
                && r->Err_0 is InvalidArtifactPath,
            r matches Ok(p) ==> self.plan_for(p, artifact_url@, data@, false),
    {
        self.write(artifact_url, data, false)
    }

    /// Plans a metadata write, which replaces what is there.
    pub fn write_maven_metadata(&self, metadata_url: String, data: Vec<u8>) -> (r: Result<WritePlan, Error>)
        ensures
            r is Ok <==> !escapes_root(metadata_url@) && has_extension(self.store_path(metadata_url@)),
            escapes_root(metadata_url@) ==> r is Err && r->Err_0 is InvalidCoordinate,
            !escapes_root(metadata_url@) && !has_extension(self.store_path(metadata_url@)) ==> r is Err
                && r->Err_0 is InvalidArtifactPath,
            r matches Ok(p) ==> self.plan_for(p, metadata_url@, data@, true),
    {
        self.write(metadata_url, data, true)
    }

    /// The result of a read of `url`, given what the store holds there.
    pub fn read(url: &str, stored: Option<Vec<u8>>) -> (r: Result<Vec<u8>, Error>)
        ensures
            stored matches Some(b) ==> (r matches Ok(x) && x@ == b@),
            stored is None ==> (r matches Err(Error::NotFound(u)) && u@ == url@),
    {
        match stored {
            Some(b) => Ok(b),
            None => Err(Error::NotFound(url.to_owned())),
        }
    }

    /// The result of a size query on `url`, given the length of what the
    /// store holds there.
    pub fn get_artifact_size(url: &str, length: Option<u64>) -> (r: Result<u64, Error>)
        ensures
            length matches Some(n) ==> r == Ok::<u64, Error>(n),
            length is None ==> (r matches Err(Error::NotFound(u)) && u@ == url@),
    {
        match length {
            Some(n) => Ok(n),
            None => Err(Error::NotFound(url.to_owned())),
        }
    }
}

/// An artifact written to a path that the store lacks reads back exactly.
pub proof fn lemma_write_then_read(svc: RepoService, url: Seq<char>, b: Seq<u8>, plan: WritePlan, store: StoreModel)
    requires
        svc.plan_for(plan, url, b, false),
        !store.contains_key(svc.store_path(url)),
    ensures
        plan.expected_outcome(store) is Written,
        plan.effect(store) is Some,
        read_effect(plan.effect(store)->Some_0, svc.store_path(url)) == Some(b),
{
}

/// A second write-once write to the same artifact is refused, and the
/// artifact still reads the first bytes.
pub proof fn lemma_second_write_refused(
    svc: RepoService,
    url: Seq<char>,
    b: Seq<u8>,
    b2: Seq<u8>,
    first: WritePlan,
    second: WritePlan,
    store: StoreModel,
)
    requires
        svc.plan_for(first, url, b, false),
        svc.plan_for(second, url, b2, false),
        !store.contains_key(svc.store_path(url)),
    ensures
        ({
            let after = first.effect(store)->Some_0;
            &&& first.effect(store) is Some
            &&& second.expected_outcome(after) is AlreadyExists
            &&& second.effect(after) is None
            &&& read_effect(after, svc.store_path(url)) == Some(b)
        }),
{
}

/// Two metadata writes to one path both succeed, whatever the store held,
/// and the path then reads the second bytes only.
pub proof fn lemma_overwrite_twice(
    svc: RepoService,
    url: Seq<char>,
    b1: Seq<u8>,
    b2: Seq<u8>,
    first: WritePlan,
    second: WritePlan,
    store: StoreModel,
)
    requires
        svc.plan_for(first, url, b1, true),
        svc.plan_for(second, url, b2, true),
    ensures
        ({
            let after = first.effect(store)->Some_0;
            &&& first.expected_outcome(store) is Written
            &&& first.effect(store) is Some
            &&& second.expected_outcome(after) is Written
            &&& second.effect(after) is Some
            &&& read_effect(second.effect(after)->Some_0, svc.store_path(url)) == Some(b2)
        }),
{
}

/// Whether some segment of `url` is `..`.
fn escapes(url: &str) -> (r: bool)
    ensures
        r == escapes_root(url@),
{
    let parts = split_on(url, '/');
    let mut i: usize = 0;
    while i < parts.len()
        invariant
            i <= parts@.len(),
            views(parts@) == segments(url@),
            forall|j: int| 0 <= j < i ==> #[trigger] segments(url@)[j] != seq!['.', '.'],
        decreases parts@.len() - i,
    {
        let seg = parts[i].as_str();
        assert(segments(url@)[i as int] == seg@);
        if seg.unicode_len() == 2 && seg.get_char(0) == '.' && seg.get_char(1) == '.' {
            assert(seg@ =~= seq!['.', '.']);
            return true;
        }
        i = i + 1;
    }
    false
}

/// Whether a dot stands in `name` after its first character.
fn has_dot_after_start(name: &str) -> (r: bool)
    ensures
        r == exists|i: int| 0 < i < name@.len() && #[trigger] name@[i] == '.',
{
    let n = name.unicode_len();
    let mut i: usize = 1;
    while i < n
        invariant
            n == name@.len(),
            1 <= i,
            forall|j: int| 0 < j < i && j < n ==> #[trigger] name@[j] != '.',
        decreases n - i,
    {
        if name.get_char(i) == '.' {
            return true;
        }
        i = i + 1;
    }
    false
}

} // verus!
