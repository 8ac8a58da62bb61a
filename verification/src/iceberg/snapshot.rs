//! [`SnapshotTransaction`]: what one atomic Iceberg snapshot changes.

use vstd::prelude::*;
use vstd::string::*;

use crate::iceberg::deletion_vector::DeletionVector;
use crate::iceberg::version::{DataFileView, Version};
use crate::textmap::TextMap;
use crate::types::level::{MetaView, ParquetFileMeta};

verus! {

/// A new Parquet file for the manifest.
#[derive(Debug)]
pub struct IcebergDataFile {
    /// Object-store path.
    pub path: String,
    /// Size in bytes.
    pub file_size: u64,
    /// Number of rows.
    pub num_rows: u64,
    /// Metadata, as embedded in the file's footer.
    pub meta: ParquetFileMeta,
}

/// [`IcebergDataFile`] with its texts as sequences.
#[verifier::ext_equal]
pub struct NewFileView {
    pub path: Seq<char>,
    pub file_size: u64,
    pub num_rows: u64,
    pub meta: MetaView,
}

impl View for IcebergDataFile {
    type V = NewFileView;

    open spec fn view(&self) -> NewFileView {
        NewFileView {
            path: self.path@,
            file_size: self.file_size,
            num_rows: self.num_rows,
            meta: self.meta@,
        }
    }
}

impl Clone for IcebergDataFile {
    fn clone(&self) -> (r: Self)
        ensures
            r@ == self@,
    {
        IcebergDataFile {
            path: self.path.clone(),
            file_size: self.file_size,
            num_rows: self.num_rows,
            meta: self.meta.clone(),
        }
    }
}

/// One atomic change of the table, built by a flush or a compaction and then
/// committed by a catalog.
#[derive(Debug)]
pub struct SnapshotTransaction {
    /// Files that this change adds.
    pub adds: Vec<IcebergDataFile>,
    /// Paths of files that this change removes from the manifest.
    pub removes: Vec<String>,
    /// Row positions to delete in addition, by data file path. Committing
    /// unites them with what is deleted already.
    pub dvs: TextMap<DeletionVector>,
    /// Summary properties of the snapshot.
    pub props: TextMap<String>,
}

impl SnapshotTransaction {
    /// A transaction that changes nothing.
    pub fn new() -> (r: Self)
        ensures
            r.adds@.len() == 0,
            r.removes@.len() == 0,
            r.dvs@ == Map::<Seq<char>, DeletionVector>::empty(),
            r.props@ == Map::<Seq<char>, String>::empty(),
    {
        SnapshotTransaction {
            adds: Vec::new(),
            removes: Vec::new(),
            dvs: TextMap::new(),
            props: TextMap::new(),
        }
    }

    /// Adds a freshly written file.
    pub fn add_file(&mut self, file: IcebergDataFile)
        ensures
            final(self).adds@ == old(self).adds@.push(file),
            final(self).removes == old(self).removes,
            final(self).dvs == old(self).dvs,
            final(self).props == old(self).props,
    {
        self.adds.push(file);
    }

    /// Removes a file from the manifest.
    pub fn remove_file(&mut self, path: String)
        ensures
            final(self).removes@ == old(self).removes@.push(path),
            final(self).adds == old(self).adds,
            final(self).dvs == old(self).dvs,
            final(self).props == old(self).props,
    {
        self.removes.push(path);
    }

    /// Deletes further rows of a file; several calls for one file add up.
    pub fn add_dv(&mut self, path: String, dv: DeletionVector)
        ensures
            final(self).dvs@ == old(self).dvs@.insert(path@, final(self).dvs@[path@]),
            final(self).dvs@[path@]@ == if old(self).dvs@.contains_key(path@) {
                old(self).dvs@[path@]@.union(dv@)
            } else {
                dv@
            },
            final(self).adds == old(self).adds,
            final(self).removes == old(self).removes,
            final(self).props == old(self).props,
    {
        let merged = match self.dvs.get(path.as_str()) {
            Some(known) => {
                let mut all = known.clone();
                all.union_with(&dv);
                all
            },
            None => dv,
        };
        self.dvs.insert(path, merged);
    }

    /// Sets a summary property.
    pub fn set_prop(&mut self, key: &str, value: &str)
        ensures
            final(self).props@.dom() == old(self).props@.dom().insert(key@),
            final(self).props@[key@]@ == value@,
            forall|k: Seq<char>|
                k != key@ && old(self).props@.contains_key(k) ==> #[trigger] final(self).props@[k]
                    == old(self).props@[k],
            final(self).adds == old(self).adds,
            final(self).removes == old(self).removes,
            final(self).dvs == old(self).dvs,
    {
        self.props.insert(key.to_owned(), value.to_owned());
    }

    /// Whether no file and no row changes. Properties alone are no change.
    pub fn is_empty(&self) -> (r: bool)
        ensures
            r == (self.adds@.len() == 0 && self.removes@.len() == 0 && self.dvs@ == Map::<
                Seq<char>,
                DeletionVector,
            >::empty()),
    {
        self.adds.len() == 0 && self.removes.len() == 0 && self.dvs.is_empty()
    }

    /// The number of added files.
    pub fn num_adds(&self) -> (r: usize)
        ensures
            r == self.adds@.len(),
    {
        self.adds.len()
    }

    /// The number of removed files.
    pub fn num_removes(&self) -> (r: usize)
        ensures
            r == self.removes@.len(),
    {
        self.removes.len()
    }
}

impl Default for SnapshotTransaction {
    fn default() -> (r: Self)
        ensures
            r.adds@.len() == 0,
            r.removes@.len() == 0,
            r.dvs@ == Map::<Seq<char>, DeletionVector>::empty(),
            r.props@ == Map::<Seq<char>, String>::empty(),
    {
        Self::new()
    }
}

/// A newly added file as a version shows it: without deletions.
pub open spec fn as_added(file: IcebergDataFile) -> DataFileView {
    DataFileView {
        path: file.path@,
        meta: file.meta@,
        dv_path: None,
        dv_offset: None,
        dv_length: None,
    }
}

impl SnapshotTransaction {
    /// Whether the transaction removes the file at a path.
    pub open spec fn removes_path(&self, path: Seq<char>) -> bool {
        crate::text::texts(self.removes@).contains(path)
    }

    /// Whether the transaction adds this file to a level.
    pub open spec fn adds_at(&self, level: int, f: DataFileView) -> bool {
        exists|k: int|
            0 <= k < self.adds@.len() && as_added(#[trigger] self.adds@[k]) == f
                && self.adds@[k].meta.level.0 == level
    }

    /// Whether committing this transaction, which deletes no single rows,
    /// leads from one version to the other: each level keeps the files that
    /// are not removed and gets those that are added to it.
    pub open spec fn leads_to(&self, before: &Version, after: &Version) -> bool {
        forall|level: int, f: DataFileView| #[trigger]
            crate::iceberg::version::lists(after.files(level), f) <==> {
                ||| crate::iceberg::version::lists(before.files(level), f) && !self.removes_path(f.path)
                ||| self.adds_at(level, f)
            }
    }
}

/// The view of a new file shows each field under its own name.
pub proof fn law_new_file_view_shows_every_field(f: IcebergDataFile)
    ensures
        f@.path == f.path@,
        f@.file_size == f.file_size,
        f@.num_rows == f.num_rows,
        f@.meta == f.meta@,
        as_added(f).path == f.path@,
        as_added(f).meta == f.meta@,
        as_added(f).dv_path is None,
        as_added(f).dv_offset is None,
        as_added(f).dv_length is None,
{
}

/// What a transaction leads to, file by file: a file whose path it does not
/// name stays where it is; one whose path it names is gone, unless it adds the
/// very same file; and each new file is in the level that its metadata gives.
pub proof fn law_transaction_changes_what_it_names(
    txn: SnapshotTransaction,
    before: &Version,
    after: &Version,
    level: int,
    i: int,
    k: int,
)
    requires
        txn.leads_to(before, after),
        0 <= i < before.files(level).len(),
    ensures
        (forall|r: int|
            0 <= r < txn.removes@.len() ==> (#[trigger] txn.removes@[r])@ != before.files(
                level,
            )[i].path@) ==> exists|j: int|
            0 <= j < after.files(level).len() && (#[trigger] after.files(level)[j])@
                == before.files(level)[i]@,
        (exists|r: int|
            0 <= r < txn.removes@.len() && (#[trigger] txn.removes@[r])@ == before.files(
                level,
            )[i].path@) && (forall|a: int|
            0 <= a < txn.adds@.len() ==> (#[trigger] txn.adds@[a]).path@ != before.files(
                level,
            )[i].path@) ==> forall|j: int|
            0 <= j < after.files(level).len() ==> (#[trigger] after.files(level)[j])@
                != before.files(level)[i]@,
        0 <= k < txn.adds@.len() ==> crate::iceberg::version::lists(
            after.files(txn.adds@[k].meta.level.0 as int),
            as_added(txn.adds@[k]),
        ),
{
    let f = before.files(level)[i]@;
    let removed = crate::text::texts(txn.removes@);
    assert(crate::iceberg::version::lists(before.files(level), f));
    if forall|r: int|
        0 <= r < txn.removes@.len() ==> (#[trigger] txn.removes@[r])@ != before.files(
            level,
        )[i].path@ {
        if txn.removes_path(f.path) {
            let r = choose|r: int| 0 <= r < removed.len() && removed[r] == f.path;
            assert(txn.removes@[r]@ == f.path);
        }
        assert(crate::iceberg::version::lists(after.files(level), f));
    }
    if (exists|r: int|
        0 <= r < txn.removes@.len() && (#[trigger] txn.removes@[r])@ == before.files(
            level,
        )[i].path@) && (forall|a: int|
        0 <= a < txn.adds@.len() ==> (#[trigger] txn.adds@[a]).path@ != before.files(
            level,
        )[i].path@) {
        let r = choose|r: int|
            0 <= r < txn.removes@.len() && (#[trigger] txn.removes@[r])@ == before.files(
                level,
            )[i].path@;
        assert(removed[r] == f.path);
        assert(removed.contains(f.path));
        assert(!txn.adds_at(level, f));
        assert(!crate::iceberg::version::lists(after.files(level), f));
    }
    if 0 <= k < txn.adds@.len() {
        assert(txn.adds_at(txn.adds@[k].meta.level.0 as int, as_added(txn.adds@[k])));
    }
}

} // verus!
