use merutable::memtable::arena::Arena;
use merutable::paths::{file_stem, join, parent, with_extension};
use merutable::store::local::{
    created_file, deleted, slice_range, FileFault, LocalFileStore,
};
use merutable::store::s3::{created, existence, removed, S3Store, StoreFault};
use merutable::types::error::MeruError;

#[test]
fn get_range() {
    let slice = slice_range(b"abcdefghij", 3, 4).unwrap();
    assert_eq!(slice.as_slice(), b"defg");
    assert_eq!(slice_range(b"abc", 3, 0).unwrap(), Vec::<u8>::new());
    let err = slice_range(b"abc", 2, 2).unwrap_err();
    assert_eq!(err.to_string(), "object store error: range [2, 4) exceeds file size 3");
}

fn file_fault(not_found: bool, already_exists: bool, message: &str) -> FileFault {
    FileFault { not_found, already_exists, message: message.into() }
}

#[test]
fn a_file_that_is_there_is_not_created_again() {
    assert!(created_file("p", Ok(())).is_ok());
    let lost = created_file("p", Err(file_fault(false, true, "exists"))).unwrap_err();
    assert!(matches!(lost, MeruError::AlreadyExists(p) if p == "p"));
    let failed = created_file("p", Err(file_fault(false, false, "denied"))).unwrap_err();
    assert!(matches!(failed, MeruError::Io(m) if m == "denied"));
}

#[test]
fn delete_nonexistent_is_ok() {
    assert!(deleted(Ok(())).is_ok());
    assert!(deleted(Err(file_fault(true, false, "no such file"))).is_ok());
    let err = deleted(Err(file_fault(false, false, "denied"))).unwrap_err();
    assert!(matches!(err, MeruError::Io(m) if m == "denied"));
}

#[test]
fn a_local_write_goes_through_a_temporary_file() {
    let store = LocalFileStore::new("/root");
    let put = store.put_files("data/test.dat");
    assert_eq!(put.target, "/root/data/test.dat");
    assert_eq!(put.tmp, "/root/data/test.tmp");
    assert_eq!(put.dir.as_deref(), Some("/root/data"));
    assert_eq!(store.full_path("x"), "/root/x");
    let err = store.read_error("x", "gone");
    assert_eq!(err.to_string(), "object store error: /root/x: gone");
}

#[test]
fn paths_follow_std() {
    for p in ["a/b.txt", "/a/b", "/", "", "a", ".", "..", "a/.hidden", "a/b.c.d", "a/b/", "a/./b.x/.", "a//b"] {
        let std_path = std::path::Path::new(p);
        assert_eq!(
            parent(p),
            std_path.parent().map(|d| d.to_str().unwrap().to_string()),
            "parent of {p:?}"
        );
        assert_eq!(
            file_stem(p),
            std_path.file_stem().map(|d| d.to_str().unwrap().to_string()),
            "stem of {p:?}"
        );
        assert_eq!(
            with_extension(p, "tmp"),
            std_path.with_extension("tmp").to_str().unwrap(),
            "extension of {p:?}"
        );
        for rel in ["c", "/c", "", "./c"] {
            assert_eq!(join(p, rel), std_path.join(rel).to_str().unwrap(), "{p:?} joined {rel:?}");
        }
    }
}

#[test]
fn object_keys_lie_below_the_prefix() {
    assert_eq!(S3Store::new(String::new()).object_key("data/x"), "data/x");
    assert_eq!(S3Store::new("tables/t".into()).object_key("data/x"), "tables/t/data/x");
    assert_eq!(S3Store::new("tables/t//".into()).object_key("data/x"), "tables/t/data/x");
}

#[test]
fn object_locations_are_encoded() {
    let store = S3Store::new("/tables".into());
    assert_eq!(store.object_path("data/x.parquet"), "tables/data/x.parquet");
    assert_eq!(store.object_path("a//b#c"), "tables/a/b%23c");
}

#[test]
fn a_lost_race_is_no_failure_of_the_store() {
    assert!(created("k", Ok(())).is_ok());
    let taken = created("k", Err(StoreFault::AlreadyExists("m".into()))).unwrap_err();
    assert!(matches!(taken, MeruError::AlreadyExists(p) if p == "k"));
    let condition = created("k", Err(StoreFault::Precondition("m".into()))).unwrap_err();
    assert!(matches!(condition, MeruError::AlreadyExists(p) if p == "k"));
    let other = created("k", Err(StoreFault::Other("down".into()))).unwrap_err();
    assert!(matches!(other, MeruError::ObjectStore(m) if m == "down"));
    let missing = created("k", Err(StoreFault::NotFound("m".into()))).unwrap_err();
    assert!(matches!(missing, MeruError::ObjectStore(m) if m == "m"));
}

#[test]
fn existence_tells_missing_from_failing() {
    assert!(existence(Ok(())).unwrap());
    assert!(!existence(Err(StoreFault::NotFound("m".into()))).unwrap());
    assert!(existence(Err(StoreFault::Other("down".into()))).is_err());
}

#[test]
fn deleting_what_is_gone_is_no_error() {
    assert!(removed(Ok(())).is_ok());
    assert!(removed(Err(StoreFault::NotFound("m".into()))).is_ok());
    let err = removed(Err(StoreFault::Other("down".into()))).unwrap_err();
    assert!(matches!(err, MeruError::ObjectStore(m) if m == "down"));
}

#[test]
fn an_arena_starts_empty() {
    assert_eq!(Arena::new().allocated_bytes(), 0);
    assert_eq!(Arena::default().allocated_bytes(), 0);
}
