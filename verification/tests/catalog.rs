use std::collections::HashMap;

use merutable::iceberg::catalog::{
    is_snapshot_file, metadata_file_name, metadata_file_path, parse_version_hint, plan_export,
    plan_open, FsStep, IcebergCatalog, OpenPlan, Payload,
};
use merutable::iceberg::deletion_vector::DeletionVector;
use merutable::iceberg::dv_merge::{
    decode_existing, encode_merged, existing_blob, merge_dv, puffin_file_name, puffin_object_key,
    puffin_relative_path,
};
use merutable::iceberg::dv_upload::{CommitStage, DvUpload, Place};
use merutable::iceberg::head_discovery::discover_head;
use merutable::iceberg::manifest::{Manifest, ManifestEntry};
use merutable::iceberg::object_store_catalog::{
    discovery_start, open_step, plan_reclaim, refresh_path, OpenStep, LOW_WATER_PATH,
};
use merutable::iceberg::object_store_commit::{
    backoff_ms, check_chain, manifest_path, CommitRetry, Committer, PutOutcome, TryStep,
};
use merutable::textmap::TextMap;
use merutable::types::error::MeruError;
use merutable::types::level::{Level, ParquetFileMeta};

fn meta() -> ParquetFileMeta {
    ParquetFileMeta {
        level: Level(0),
        seq_min: 1,
        seq_max: 10,
        key_min: vec![0x01],
        key_max: vec![0xFF],
        num_rows: 100,
        file_size: 1024,
        dv_path: None,
        dv_offset: None,
        dv_length: None,
        format: None,
        column_stats: None,
    }
}

fn manifest(snapshot_id: i64, parent: Option<i64>) -> Manifest {
    Manifest {
        table_uuid: "u".into(),
        snapshot_id,
        sequence_number: snapshot_id,
        parent_snapshot_id: parent,
        entries: vec![],
    }
}

fn with_entry(status: &str, dv: Option<(&str, i64, i64)>) -> Manifest {
    let mut m = manifest(3, Some(2));
    m.entries.push(ManifestEntry {
        path: "data/L0/a.parquet".into(),
        meta: meta(),
        status: status.into(),
        dv_path: dv.map(|d| d.0.to_string()),
        dv_offset: dv.map(|d| d.1),
        dv_length: dv.map(|d| d.2),
    });
    m
}

fn dv_of(rows: &[u32]) -> DeletionVector {
    let mut dv = DeletionVector::new();
    for r in rows {
        dv.mark_deleted(*r);
    }
    dv
}

fn corruption<T: std::fmt::Debug>(r: Result<T, MeruError>) -> String {
    match r {
        Err(MeruError::Corruption(m)) => m,
        other => panic!("expected a corruption, got {other:?}"),
    }
}

#[test]
fn manifests_have_versioned_names() {
    assert_eq!(metadata_file_name(12), "v12.metadata.json");
    assert_eq!(metadata_file_path("/t", 1), "/t/metadata/v1.metadata.json");
    assert!(is_snapshot_file("v1.metadata.json"));
    assert!(!is_snapshot_file("v1.metadata.json.tmp"));
    assert!(!is_snapshot_file("x.metadata.json"));
    assert!(!is_snapshot_file("v"));
}

#[test]
fn opening_follows_the_hint() {
    match plan_open("/t", Some(" 7\n"), &vec![]).unwrap() {
        OpenPlan::Load { version, metadata_path, next_version } => {
            assert_eq!(version, 7);
            assert_eq!(metadata_path, "/t/metadata/v7.metadata.json");
            assert_eq!(next_version, 8);
        }
        other => panic!("unexpected plan {other:?}"),
    }
    assert!(corruption(plan_open("/t", Some("seven"), &vec![])).contains("version-hint"));
}

#[test]
fn opening_an_empty_directory_starts_afresh() {
    assert!(matches!(
        plan_open("/t", None, &vec!["README".to_string()]).unwrap(),
        OpenPlan::Fresh { next_version: 1 }
    ));
}

#[test]
fn a_lost_hint_is_not_taken_for_a_new_table() {
    let names = vec!["v1.metadata.json".to_string()];
    let message = corruption(plan_open("/t", None, &names));
    assert!(message.starts_with("version-hint.text is missing but /t/metadata/ contains"));
}

#[test]
fn a_hint_is_read_as_it_was_written() {
    let plan = plan_open("/t", Some("41"), &vec![]).unwrap();
    let mut catalog = IcebergCatalog::opened("/t".into(), &plan);
    assert_eq!(catalog.next_snapshot_id(), 42);
    assert_eq!(parse_version_hint(&catalog.hint_text(), "bad").unwrap(), 42);
    catalog.committed();
    assert_eq!(catalog.next_snapshot_id(), 43);
    catalog.refreshed(99);
    assert_eq!(catalog.next_snapshot_id(), 100);
    assert_eq!(corruption(parse_version_hint("x", "bad")), "bad");
}

#[test]
fn catalog_paths_follow_the_layout() {
    let plan = plan_open("/t", None, &vec![]).unwrap();
    let catalog = IcebergCatalog::opened("/t".into(), &plan);
    assert_eq!(catalog.base_path(), "/t");
    assert_eq!(catalog.data_file_path(Level(2), "id"), "/t/data/L2/id.parquet");
    assert_eq!(catalog.level_dir(Level(0)), "/t/data/L0");
    assert_eq!(catalog.absolute("data/L0/x"), "/t/data/L0/x");
    assert_eq!(catalog.absolute("/abs"), "/abs");
}

#[test]
fn a_commit_syncs_the_manifest_before_the_hint() {
    let plan = plan_open("/t", None, &vec![]).unwrap();
    let catalog = IcebergCatalog::opened("/t".into(), &plan);
    let shown: Vec<String> = catalog.manifest_plan().iter().map(|s| format!("{s:?}")).collect();
    assert_eq!(
        shown,
        vec![
            "Write(Manifest, \"/t/metadata/v1.metadata.json\")",
            "SyncFile(\"/t/metadata/v1.metadata.json\")",
            "SyncDir(\"/t/metadata\")",
            "Write(Hint, \"/t/version-hint.text.tmp\")",
            "SyncFile(\"/t/version-hint.text.tmp\")",
            "Rename(\"/t/version-hint.text.tmp\", \"/t/version-hint.text\")",
            "SyncDir(\"/t\")",
        ]
    );
    let data: Vec<String> =
        catalog.data_file_plan(Level(1), "id").iter().map(|s| format!("{s:?}")).collect();
    assert_eq!(
        data,
        vec![
            "MakeDir(\"/t/data/L1\")",
            "Write(DataFile, \"/t/data/L1/id.parquet\")",
            "SyncFile(\"/t/data/L1/id.parquet\")",
            "SyncDir(\"/t/data/L1\")",
        ]
    );
    let puffin = catalog.puffin_plan("data/L0/a.dv-1.puffin");
    assert_eq!(puffin.len(), 4);
    assert!(matches!(&puffin[0], FsStep::MakeDir(d) if d == "/t/data/L0"));
    assert!(matches!(&puffin[1], FsStep::Write(Payload::Puffin, p) if p == "/t/data/L0/a.dv-1.puffin"));
}

#[test]
fn export_writes_under_its_target() {
    let e = plan_export("/abs/t", "/out", 5);
    assert_eq!(e.table_location, "file:///abs/t");
    assert_eq!(e.metadata_dir, "/out/metadata");
    assert_eq!(e.out_path, "/out/metadata/v5.metadata.json");
    assert_eq!(e.hint_path, "/out/version-hint.text");
    assert_eq!(e.hint_text, "5");
}

#[test]
fn puffin_files_are_named_after_their_data_file_and_version() {
    assert_eq!(puffin_file_name("data/L0/abc.parquet", 3), "abc.dv-3.puffin");
    assert_eq!(puffin_object_key("data/L0/abc.parquet", 3), "data/L0/abc.dv-3.puffin");
    assert_eq!(puffin_relative_path("data/L0/abc.parquet", 3), "data/L0/abc.dv-3.puffin");
    assert_ne!(puffin_file_name("a.parquet", 3), puffin_file_name("a.parquet", 4));
    assert_eq!(puffin_relative_path("", 3), "data/L0/unknown.dv-3.puffin");
}

#[test]
fn consecutive_dvs_union_not_replace() {
    let path = "data/L0/warm.parquet";
    // First rows 1 and 2, then rows 5 and 6.
    let first = encode_merged(path, None, &dv_of(&[1, 2]), 3).unwrap();
    let existing =
        decode_existing(path, first.blob_offset, first.blob_length, &first.bytes).unwrap();
    let second = encode_merged(path, Some(existing), &dv_of(&[5, 6]), 4).unwrap();
    let start = second.blob_offset as usize;
    let blob = &second.bytes[start..start + second.blob_length as usize];
    let decoded = DeletionVector::from_puffin_blob(blob).unwrap();
    assert_eq!(decoded.cardinality(), 4, "all four rows must remain marked");
    for row in [1, 2, 5, 6] {
        assert!(decoded.is_deleted(row), "row {row} must survive union");
    }
    assert_eq!(DeletionVector::referenced_data_file(&second.bytes).unwrap(), path);
}

#[test]
fn dv_union_keeps_both_parts() {
    let merged = merge_dv("p", dv_of(&[1, 2]), &dv_of(&[2, 9])).unwrap();
    assert_eq!(merged.cardinality(), 3);
}

#[test]
fn dv_for_unknown_file_errors() {
    let m = with_entry("existing", None);
    let err = existing_blob(&m, "data/L0/ghost.parquet").unwrap_err();
    assert!(matches!(err, MeruError::InvalidArgument(_)));
    let msg = format!("{err:?}");
    assert!(msg.contains("ghost.parquet"), "error must name the missing path: {msg}");
    // An entry that only records a removal is not live.
    let gone = with_entry("deleted", None);
    assert!(existing_blob(&gone, "data/L0/a.parquet").is_err());
}

#[test]
fn existing_dv_is_located_by_its_coordinates() {
    let none = with_entry("existing", None);
    assert!(existing_blob(&none, "data/L0/a.parquet").unwrap().is_none());
    let some = with_entry("existing", Some(("data/L0/a.dv-2.puffin", 4, 20)));
    let blob = existing_blob(&some, "data/L0/a.parquet").unwrap().unwrap();
    assert_eq!((blob.dv_path.as_str(), blob.offset, blob.length), ("data/L0/a.dv-2.puffin", 4, 20));
    let negative = with_entry("existing", Some(("p", -1, 20)));
    assert!(corruption(existing_blob(&negative, "data/L0/a.parquet")).contains("negative offset (-1)"));
}

#[test]
fn existing_dv_outside_its_file_is_corruption() {
    assert!(corruption(decode_existing("f", 2, 9, &[0; 10])).contains("exceeds puffin file size 10"));
    assert!(corruption(decode_existing("f", 2, -9, &[0; 10])).contains("or length (-9)"));
}

#[test]
fn mismatched_snapshot_id_is_corruption() {
    let bad = manifest(42, None); // the first version is 1
    assert!(corruption(check_chain(0, &bad)).contains("snapshot_id=42"));
    let unlinked = manifest(4, Some(2));
    assert!(corruption(check_chain(3, &unlinked)).contains("parent_snapshot_id=Some(2)"));
}

#[test]
fn a_chain_starts_at_one_and_points_back() {
    assert_eq!(check_chain(0, &manifest(1, None)).unwrap(), 1);
    assert_eq!(check_chain(3, &manifest(4, Some(3))).unwrap(), 4);
    assert_eq!(manifest_path(4), "metadata/v4.manifest.bin");
}

#[test]
fn race_loss_rediscovers_and_retries() {
    let commit = CommitRetry::start(1, Committer::Writer);
    assert_eq!(commit.version(), 2);
    assert_eq!(commit.after_put(PutOutcome::Taken), TryStep::WaitAndRediscover(1));
    let next = commit.rebase(2).unwrap();
    assert_eq!(next.version(), 3);
    assert_eq!(next.after_put(PutOutcome::Written), TryStep::Committed(3));
    assert_eq!(next.after_put(PutOutcome::Taken), TryStep::WaitAndRediscover(2));
    assert_eq!(next.after_put(PutOutcome::Failed), TryStep::Abort);
}

/// Loses every try; returns their number and the error.
fn lose_every_try(who: Committer) -> (u32, String) {
    let mut commit = CommitRetry::start(1, who);
    let mut tries = 1;
    loop {
        match commit.rebase(1) {
            Ok(next) => commit = next,
            Err(e) => return (tries, e.to_string()),
        }
        tries += 1;
    }
}

#[test]
fn retries_are_bounded() {
    assert_eq!(
        lose_every_try(Committer::Writer),
        (8, "object store error: commit_with_retry: exceeded 8 retries on ObjectStore commit".into())
    );
    assert_eq!(
        lose_every_try(Committer::Catalog),
        (16, "object store error: ObjectStoreCatalog::commit: exceeded 16 retries".into())
    );
    assert_eq!(Committer::Catalog.max_tries(), 16);
}

#[test]
fn backoff_doubles_up_to_its_cap() {
    let waits: Vec<u64> = (0..10).map(backoff_ms).collect();
    assert_eq!(waits, vec![1, 2, 4, 8, 16, 32, 64, 128, 200, 200]);
}

#[test]
fn discovery_starts_at_the_pointer() {
    assert_eq!(discovery_start(None).unwrap(), 1);
    assert_eq!(discovery_start(Some(b" 8\n")).unwrap(), 8);
    assert!(corruption(discovery_start(Some(&[0xFF]))).starts_with("low_water.txt not UTF-8: "));
    for text in ["x", "", " - ", "1 2", "99999999999999999999"] {
        let said = text.trim().parse::<i64>().unwrap_err().to_string();
        assert_eq!(
            corruption(discovery_start(Some(text.as_bytes()))),
            format!("low_water.txt not an integer: {said}"),
        );
    }
    assert!(corruption(discovery_start(Some(b"0"))).starts_with("low_water.txt contains 0"));
    assert_eq!(LOW_WATER_PATH, "metadata/low_water.txt");
}

#[test]
fn an_empty_store_gets_a_genesis_manifest() {
    assert!(matches!(open_step(0), OpenStep::WriteGenesis { path } if path == "metadata/v1.manifest.bin"));
    assert!(matches!(open_step(5), OpenStep::Load { path } if path == "metadata/v5.manifest.bin"));
    assert_eq!(refresh_path(5).unwrap(), "metadata/v5.manifest.bin");
    assert!(corruption(refresh_path(0)).contains("HEAD discovery returned 0"));
}

#[test]
fn reclaim_keeps_last_n_manifests() {
    let plan = plan_reclaim(10, 3).unwrap().unwrap();
    assert_eq!(plan.versions, (1..=7).collect::<Vec<_>>());
    assert_eq!(plan.low_water, 8);
    assert_eq!(plan.pointer_text(), "8");
    assert_eq!(discovery_start(Some(plan.pointer_text().as_bytes())).unwrap(), 8);
}

#[test]
fn reclaim_is_idempotent() {
    let first = plan_reclaim(5, 2).unwrap().unwrap();
    assert_eq!(first.versions, vec![1, 2, 3]);
    let second = plan_reclaim(5, 2).unwrap().unwrap();
    assert_eq!(second.versions, vec![1, 2, 3]);
}

#[test]
fn reclaim_zero_keep_rejected() {
    let err = plan_reclaim(5, 0).unwrap_err();
    assert!(format!("{err:?}").contains("keep_recent"));
}

#[test]
fn reclaim_keep_larger_than_head_is_noop() {
    assert!(plan_reclaim(1, 100).unwrap().is_none());
    assert!(plan_reclaim(3, 3).unwrap().is_none());
    assert!(plan_reclaim(3, usize::MAX).unwrap().is_none());
}

#[test]
fn commit_with_dv_records_real_coordinates() {
    let m = with_entry("existing", None);
    let mut dvs = TextMap::new();
    dvs.insert("data/L0/a.parquet".to_string(), dv_of(&[2, 4]));
    for place in [Place::Directory, Place::Bucket] {
        let mut upload = DvUpload::start(place, &dvs, 4);
        assert!(!upload.is_complete());
        assert_eq!(upload.current_path(), "data/L0/a.parquet");
        assert!(upload.source(&m).unwrap().is_none());
        let write = upload.encode(None).unwrap();
        assert_eq!(write.dv_path, "data/L0/a.dv-4.puffin");
        let length = write.encoded.blob_length;
        upload.stored_one(write);
        assert!(upload.is_complete());
        let locations = upload.locations();
        let location = locations.get("data/L0/a.parquet").unwrap();
        assert_eq!(location.dv_path, "data/L0/a.dv-4.puffin");
        assert_eq!(location.dv_offset, 4);
        assert_eq!(location.dv_length, length);
        assert!(length > 0);
    }
}

#[test]
fn successive_dv_updates_are_unioned() {
    let mut dvs = TextMap::new();
    let (rows1, rows2): (Vec<u32>, Vec<u32>) = ((0..10).collect(), (50..60).collect());
    dvs.insert("data/L0/a.parquet".to_string(), dv_of(&rows2));
    let first = encode_merged("data/L0/a.parquet", None, &dv_of(&rows1), 3).unwrap();
    let dv_after_first = DeletionVector::from_puffin_bytes(&first.bytes).unwrap();
    assert_eq!(dv_after_first.cardinality(), 10);
    let m = with_entry(
        "existing",
        Some(("data/L0/a.dv-3.puffin", first.blob_offset, first.blob_length)),
    );
    // In a directory the whole file is read, in an object store its blob.
    let blob = first.bytes[4..4 + first.blob_length as usize].to_vec();
    for (place, bytes) in [(Place::Directory, first.bytes.clone()), (Place::Bucket, blob)] {
        let upload = DvUpload::start(place, &dvs, 4);
        let range = upload.source(&m).unwrap().unwrap();
        assert_eq!(range.dv_path, "data/L0/a.dv-3.puffin");
        let existing = upload.existing(&range, &bytes).unwrap();
        let write = upload.encode(Some(existing)).unwrap();
        let all = DeletionVector::from_puffin_bytes(&write.encoded.bytes).unwrap();
        assert_eq!(all.cardinality(), 20);
        for i in 0..10u32 {
            assert!(all.is_deleted(i), "row {i} must stay deleted");
        }
        for i in 10..50u32 {
            assert!(!all.is_deleted(i), "row {i} must not be deleted");
        }
        for i in 50..60u32 {
            assert!(all.is_deleted(i), "row {i} must be deleted");
        }
    }
}

#[test]
fn deletions_of_a_file_that_is_gone() {
    let mut dvs = TextMap::new();
    dvs.insert("data/L0/gone.parquet".to_string(), dv_of(&[1]));
    let m = with_entry("existing", None);
    // A directory takes them; an object store refuses them.
    assert!(DvUpload::start(Place::Directory, &dvs, 4).source(&m).unwrap().is_none());
    assert!(DvUpload::start(Place::Bucket, &dvs, 4).source(&m).is_err());
}

#[test]
fn a_failed_commit_sweeps_its_puffin_files() {
    let mut dvs = TextMap::new();
    dvs.insert("data/L0/a.parquet".to_string(), dv_of(&[1]));
    dvs.insert("data/L0/b.parquet".to_string(), dv_of(&[1]));
    let both = vec!["data/L0/a.dv-4.puffin".to_string(), "data/L0/b.dv-4.puffin".to_string()];
    for place in [Place::Directory, Place::Bucket] {
        let mut upload = DvUpload::start(place, &dvs, 4);
        while !upload.is_complete() {
            let write = upload.encode(None).unwrap();
            upload.stored_one(write);
        }
        assert_eq!(upload.orphans(CommitStage::Publishing), both);
        let early = if place == Place::Directory { both.clone() } else { Vec::new() };
        assert_eq!(upload.orphans(CommitStage::Building), early);
        assert_eq!(upload.orphans(CommitStage::Deletions), early);
    }
}

/// The manifest that follows the one at `head` and adds a file to it.
fn on_top(base: &Manifest, head: i64, path: &str) -> Manifest {
    let mut m = manifest(head + 1, Some(head));
    for p in base.entries.iter().map(|e| e.path.as_str()).chain([path]) {
        m.entries.push(ManifestEntry {
            path: p.into(),
            meta: meta(),
            status: "existing".into(),
            dv_path: None,
            dv_offset: None,
            dv_length: None,
        });
    }
    m
}

#[test]
fn object_store_catalog_concurrent_writers_chain_correctly() {
    let mut store: HashMap<String, Manifest> = HashMap::new();
    store.insert(manifest_path(1), manifest(1, None));
    // Two writers of five commits each; both build on the same HEAD, so that
    // the second one of a round loses its first try.
    for i in 0..5 {
        let head = discover_head(|v: i64| Ok(store.contains_key(&manifest_path(v)))).unwrap();
        let paths = [format!("data/L0/a{i}.parquet"), format!("data/L0/b{i}.parquet")];
        let mut tries = 0;
        for path in &paths {
            let mut commit = CommitRetry::start(head, Committer::Catalog);
            loop {
                tries += 1;
                let m = on_top(&store[&manifest_path(commit.head)], commit.head, path);
                let key = manifest_path(check_chain(commit.head, &m).unwrap());
                let outcome = if store.contains_key(&key) {
                    PutOutcome::Taken
                } else {
                    store.insert(key, m);
                    PutOutcome::Written
                };
                match commit.after_put(outcome) {
                    TryStep::Committed(_) => break,
                    TryStep::WaitAndRediscover(_) => {
                        let probe = |v: i64| Ok(store.contains_key(&manifest_path(v)));
                        commit = commit.rebase(discover_head(probe).unwrap()).unwrap();
                    }
                    TryStep::Abort => panic!("the store does not fail"),
                }
            }
        }
        assert_eq!(tries, 3);
    }
    let head = discover_head(|v: i64| Ok(store.contains_key(&manifest_path(v)))).unwrap();
    assert_eq!(head, 11);
    for v in 1..=head {
        let m = store.get(&format!("metadata/v{v}.manifest.bin")).unwrap();
        assert_eq!(m.snapshot_id, v, "snapshot_id mismatch at v{v}");
        assert_eq!(m.parent_snapshot_id, if v == 1 { None } else { Some(v - 1) });
    }
    let newest = &store[&manifest_path(head)];
    for i in 0..5 {
        assert!(newest.find_live(&format!("data/L0/a{i}.parquet")).is_some());
        assert!(newest.find_live(&format!("data/L0/b{i}.parquet")).is_some());
    }
}
