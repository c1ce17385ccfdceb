use std::collections::HashMap;

use maven_repo::text::{join_range, lex_less, replace_all, split_on, str_eq};
use maven_repo::{
    build_metadata, complete_write, credential_from_decoded, extract_artifact_from_url,
    extract_authentication_info, select_versions, serialize_xml, sort_lexical, split_once,
    ArtifactId, Conf, DirEntry, Error, GroupId, LastUpdated, Latest, Metadata, MetadataLocation,
    Release, RepoService, Timestamp, User, Version, Versioning, Versions, WriteOutcome, WritePlan,
};

fn user(u: &str, p: &str) -> User {
    User { user: u.to_string(), password: p.to_string() }
}

fn service() -> RepoService {
    RepoService::new(Conf { repo_path: "repo".to_string(), users: vec![user("alice", "pw1")] })
}

/// Performs a plan on an in-memory store the way the host does on disk.
fn perform(store: &mut HashMap<String, Vec<u8>>, plan: &WritePlan) -> WriteOutcome {
    if !plan.overwrite && store.contains_key(&plan.path) {
        return WriteOutcome::AlreadyExists;
    }
    store.insert(plan.path.clone(), plan.data.clone());
    WriteOutcome::Written
}

fn read(svc: &RepoService, store: &HashMap<String, Vec<u8>>, url: &str) -> Result<Vec<u8>, Error> {
    let path = svc.artifact_path(url)?;
    RepoService::read(url, store.get(&path).cloned())
}

fn write(svc: &RepoService, store: &mut HashMap<String, Vec<u8>>, url: &str, data: Vec<u8>, metadata: bool) -> Result<(), Error> {
    let plan = if metadata {
        svc.write_maven_metadata(url.to_string(), data)?
    } else {
        svc.write_artifact(url.to_string(), data)?
    };
    let outcome = perform(store, &plan);
    complete_write(&plan, outcome)
}

fn dir(name: &str) -> DirEntry {
    DirEntry { name: Some(name.to_string()), is_dir: true }
}

fn location() -> MetadataLocation {
    MetadataLocation {
        group_id: "com.example".to_string(),
        artifact_id: "lib".to_string(),
        dir: "repo/com/example/lib/".to_string(),
    }
}

fn stamp() -> Timestamp {
    Timestamp::new(2024, 3, 5, 7, 8, 9).unwrap()
}

#[test]
fn artifact_coordinates_from_url() {
    let a = extract_artifact_from_url("/com/example/lib/1.0/lib-1.0.jar".to_string()).unwrap();
    assert_eq!(a.group_id, "com.example");
    assert_eq!(a.artifact_name, "lib");
    assert_eq!(a.version, "1.0");
}

#[test]
fn artifact_coordinates_too_short() {
    let r = extract_artifact_from_url("/1.0/lib.jar".to_string());
    assert!(matches!(r, Err(Error::MalformedCoordinate(_))));
}

#[test]
fn authenticate_matching_pair() {
    assert!(service().authenticate(user("alice", "pw1")).is_ok());
}

#[test]
fn authenticate_rejects_others() {
    let svc = service();
    assert!(matches!(svc.authenticate(user("alice", "wrong")), Err(Error::AuthenticationError)));
    assert!(matches!(svc.authenticate(user("bob", "pw1")), Err(Error::AuthenticationError)));
}

#[test]
fn header_decodes_to_credential() {
    let u = extract_authentication_info(Some("Basic YWxpY2U6cHcx")).unwrap();
    assert_eq!(u.user, "alice");
    assert_eq!(u.password, "pw1");
    assert!(service().authenticate(u).is_ok());
}

#[test]
fn undecodable_headers_carry_no_credential() {
    assert!(extract_authentication_info(None).is_none());
    assert!(extract_authentication_info(Some("Basic")).is_none());
    assert!(extract_authentication_info(Some("Basic !!!notbase64")).is_none());
    assert!(extract_authentication_info(Some("Basic YWxpY2VwdzE=")).is_none());
}

#[test]
fn decoded_credential_splits_at_first_colon() {
    let u = credential_from_decoded(b"alice:pw:x".to_vec()).unwrap();
    assert_eq!(u.user, "alice");
    assert_eq!(u.password, "pw:x");
    assert!(credential_from_decoded(vec![0xff, 0x3a, 0x41]).is_none());
    assert!(credential_from_decoded(b"nocolon".to_vec()).is_none());
}

#[test]
fn artifact_write_plan() {
    let plan = service().write_artifact("/com/example/lib/1.0/lib-1.0.jar".to_string(), vec![1, 2]).unwrap();
    assert_eq!(plan.path, "repo//com/example/lib/1.0/lib-1.0.jar");
    assert_eq!(plan.parent, "repo//com/example/lib/1.0");
    assert_eq!(plan.data, vec![1, 2]);
    assert!(!plan.overwrite);
    let meta = service().write_maven_metadata("/com/example/lib/maven-metadata.xml".to_string(), vec![3]).unwrap();
    assert!(meta.overwrite);
}

#[test]
fn write_without_extension_is_refused() {
    let r = service().write_artifact("/com/example/lib/1.0/lib".to_string(), vec![1]);
    assert!(matches!(r, Err(Error::InvalidArtifactPath(_))));
    let r = service().write_artifact("/com/example/lib/1.0/.hidden".to_string(), vec![1]);
    assert!(matches!(r, Err(Error::InvalidArtifactPath(_))));
}

#[test]
fn traversal_is_refused() {
    let svc = service();
    let r = svc.write_artifact("/com/../../etc/passwd.txt".to_string(), vec![1]);
    assert!(matches!(r, Err(Error::InvalidCoordinate(_))));
    assert!(matches!(svc.artifact_path("/a/../b.jar"), Err(Error::InvalidCoordinate(_))));
    assert!(matches!(svc.metadata_location("/com/../lib/maven-metadata.xml"), Err(Error::InvalidCoordinate(_))));
}

#[test]
fn complete_write_outcomes() {
    let plan = service().write_artifact("/g/a/1/a.jar".to_string(), vec![]).unwrap();
    assert!(complete_write(&plan, WriteOutcome::Written).is_ok());
    match complete_write(&plan, WriteOutcome::AlreadyExists) {
        Err(Error::ArtifactOverwrite(u)) => assert_eq!(u, "/g/a/1/a.jar"),
        _ => panic!("expected ArtifactOverwrite"),
    }
    match complete_write(&plan, WriteOutcome::Failed("disk full".to_string())) {
        Err(Error::InvalidConfiguration(m)) => assert_eq!(m, "disk full"),
        _ => panic!("expected InvalidConfiguration"),
    }
}

#[test]
fn write_then_read_round_trip() {
    let svc = service();
    let mut store = HashMap::new();
    let b = vec![0u8, 7, 255, 42];
    write(&svc, &mut store, "/g/a/1.0/a-1.0.jar", b.clone(), false).unwrap();
    assert_eq!(read(&svc, &store, "/g/a/1.0/a-1.0.jar").unwrap(), b);
}

#[test]
fn second_artifact_write_is_refused() {
    let svc = service();
    let mut store = HashMap::new();
    write(&svc, &mut store, "/g/a/1.0/a-1.0.jar", vec![1], false).unwrap();
    let r = write(&svc, &mut store, "/g/a/1.0/a-1.0.jar", vec![2], false);
    assert!(matches!(r, Err(Error::ArtifactOverwrite(_))));
    assert_eq!(read(&svc, &store, "/g/a/1.0/a-1.0.jar").unwrap(), vec![1]);
}

#[test]
fn metadata_overwrite_keeps_second_payload() {
    let svc = service();
    let mut store = HashMap::new();
    write(&svc, &mut store, "/g/a/maven-metadata.xml", vec![1, 1], true).unwrap();
    write(&svc, &mut store, "/g/a/maven-metadata.xml", vec![2], true).unwrap();
    assert_eq!(read(&svc, &store, "/g/a/maven-metadata.xml").unwrap(), vec![2]);
}

#[test]
fn read_of_missing_path() {
    let svc = service();
    let store = HashMap::new();
    match read(&svc, &store, "/g/a/1.0/none.jar") {
        Err(Error::NotFound(u)) => assert_eq!(u, "/g/a/1.0/none.jar"),
        _ => panic!("expected NotFound"),
    }
}

#[test]
fn size_of_artifact() {
    assert_eq!(RepoService::get_artifact_size("/g/a/1/a.jar", Some(4096)).unwrap(), 4096);
    assert!(matches!(RepoService::get_artifact_size("/g/a/1/b.jar", None), Err(Error::NotFound(_))));
}

#[test]
fn versions_sort_lexically() {
    let entries = vec![dir("1.0"), dir("1.2"), dir("1.10")];
    let m = build_metadata(&location(), Some(entries), &stamp()).unwrap();
    let vs: Vec<String> = m.versioning.versions.version.iter().map(|v| v.version.clone()).collect();
    assert_eq!(vs, vec!["1.0", "1.10", "1.2"]);
    assert_eq!(m.versioning.latest.body, "1.2");
    assert_eq!(m.versioning.release.body, "1.2");
    assert_eq!(m.versioning.last_updated.body, "20240305070809");
    assert_eq!(m.group_id.body, "com.example");
    assert_eq!(m.artifact_id.body, "lib");
}

#[test]
fn listing_filter_keeps_decodable_directories() {
    let entries = vec![
        dir("2.0"),
        DirEntry { name: Some("maven-metadata.xml".to_string()), is_dir: false },
        DirEntry { name: None, is_dir: true },
        dir("1.0"),
    ];
    assert_eq!(select_versions(&entries), vec!["2.0", "1.0"]);
}

#[test]
fn metadata_of_missing_or_empty_directory_fails() {
    let r = build_metadata(&location(), None, &stamp());
    assert!(matches!(r, Err(Error::MetadataGenerationFailed(_))));
    let r = build_metadata(&location(), Some(vec![]), &stamp());
    assert!(matches!(r, Err(Error::MetadataGenerationFailed(_))));
    let files = vec![DirEntry { name: Some("x.jar".to_string()), is_dir: false }];
    let r = build_metadata(&location(), Some(files), &stamp());
    assert!(matches!(r, Err(Error::MetadataGenerationFailed(_))));
    let r = service().generate_maven_metadata(&location(), None);
    assert!(matches!(r, Err(Error::MetadataGenerationFailed(_))));
}

#[test]
fn metadata_location_of_url() {
    let loc = service().metadata_location("/com/example/lib/maven-metadata.xml").unwrap();
    assert_eq!(loc.group_id, "com.example");
    assert_eq!(loc.artifact_id, "lib");
    assert_eq!(loc.dir, "repo/com/example/lib/");
    let loc = service().metadata_location("/org.acme/tool/maven-metadata.xml").unwrap();
    assert_eq!(loc.dir, "repo/org/acme/tool/");
    let r = service().metadata_location("/lib/maven-metadata.xml");
    assert!(matches!(r, Err(Error::MalformedCoordinate(_))));
    let r = service().metadata_location("maven-metadata.xml");
    assert!(matches!(r, Err(Error::MalformedCoordinate(_))));
}

#[test]
fn timestamp_format() {
    assert_eq!(stamp().format(), "20240305070809");
    assert_eq!(Timestamp::new(987, 12, 31, 23, 59, 59).unwrap().format(), "09871231235959");
    assert_eq!(Timestamp::new(12345, 1, 2, 3, 4, 5).unwrap().format(), "123450102030405");
    assert_eq!(Timestamp::new(-1, 1, 1, 0, 0, 0).unwrap().format(), "-00010101000000");
    assert!(Timestamp::new(2024, 0, 1, 0, 0, 0).is_none());
    assert!(Timestamp::new(2024, 1, 32, 0, 0, 0).is_none());
    assert!(Timestamp::new(2024, 13, 1, 0, 0, 0).is_none());
    assert!(Timestamp::new(2024, 1, 1, 24, 0, 0).is_none());
}

#[test]
fn xml_document_shape() {
    let m = Metadata {
        group_id: GroupId { body: "g".to_string() },
        artifact_id: ArtifactId { body: "a&b".to_string() },
        versioning: Versioning {
            latest: Latest { body: "2".to_string() },
            release: Release { body: "2".to_string() },
            versions: Versions { version: vec![Version { version: "1".to_string() }, Version { version: "2".to_string() }] },
            last_updated: LastUpdated { body: "20240101000000".to_string() },
        },
    };
    assert_eq!(
        serialize_xml(m),
        "<?xml version=\"1.0\" encoding=\"UTF-8\"?><metadata><groupId>g</groupId><artifactId>a&amp;b</artifactId>\
<versioning><latest>2</latest><release>2</release><versions><version>1</version><version>2</version></versions>\
<lastUpdated>20240101000000</lastUpdated></versioning></metadata>"
    );
}

#[test]
fn end_to_end_put_get_metadata() {
    let svc = service();
    let mut store = HashMap::new();
    let url = "/com/example/lib/1.0/lib-1.0.jar";
    let u = extract_authentication_info(Some("Basic YWxpY2U6cHcx")).unwrap();
    svc.authenticate(u).unwrap();
    write(&svc, &mut store, url, vec![0x01, 0x02], false).unwrap();
    assert_eq!(read(&svc, &store, url).unwrap(), vec![0x01, 0x02]);
    let loc = svc.metadata_location("/com/example/lib/maven-metadata.xml").unwrap();
    let listing: Vec<DirEntry> = store
        .keys()
        .filter_map(|k| k.strip_prefix(loc.dir.as_str()).or_else(|| k.strip_prefix("repo//com/example/lib/")))
        .filter_map(|rest| rest.split('/').next().map(|v| v.to_string()))
        .map(|v| dir(&v))
        .collect();
    let xml = svc.generate_maven_metadata(&loc, Some(listing)).unwrap();
    assert!(xml.contains("<versions><version>1.0</version></versions>"));
    assert!(xml.contains("<latest>1.0</latest>"));
    assert!(xml.contains("<release>1.0</release>"));
    assert!(xml.contains("<groupId>com.example</groupId><artifactId>lib</artifactId>"));
    let start = xml.find("<lastUpdated>").unwrap() + "<lastUpdated>".len();
    let stamp = &xml[start..start + 14];
    assert!(stamp.chars().all(|c| c.is_ascii_digit()));
    assert!(stamp[..4].parse::<u32>().unwrap() >= 2020);
    assert_eq!(&xml[start + 14..start + 28], "</lastUpdated>");
}

#[test]
fn text_helpers() {
    assert_eq!(split_on("/a//b", '/'), vec!["", "a", "", "b"]);
    assert_eq!(split_on("", '/'), vec![""]);
    let parts = split_on("x/y/z", '/');
    assert_eq!(join_range(&parts, 0, 3, '.'), "x.y.z");
    assert_eq!(join_range(&parts, 1, 1, '.'), "");
    assert_eq!(replace_all("a.b.c", '.', '/'), "a/b/c");
    assert!(lex_less("1.10", "1.2"));
    assert!(lex_less("1", "1.0"));
    assert!(!lex_less("1.2", "1.2"));
    assert!(str_eq("abc", "abc"));
    assert!(!str_eq("abc", "abd"));
    assert_eq!(split_once("a:b:c", ':'), Some(("a".to_string(), "b:c".to_string())));
    assert_eq!(split_once("abc", ':'), None);
}

#[test]
fn sort_is_lexical_and_keeps_duplicates() {
    let v = vec!["b".to_string(), "a".to_string(), "b".to_string(), "10".to_string(), "9".to_string()];
    assert_eq!(sort_lexical(v), vec!["10", "9", "a", "b", "b"]);
}

#[test]
fn version_order_is_lexical() {
    let v = |s: &str| Version { version: s.to_string() };
    assert!(v("1.10") < v("1.2"));
    assert!(v("1.0") < v("1.10"));
    assert!(v("2") > v("10"));
    assert_eq!(v("1.0").partial_cmp(&v("1.0")), Some(std::cmp::Ordering::Equal));
    assert!(v("1.0") == v("1.0"));
    assert!(v("1.0") != v("1.00"));
}
