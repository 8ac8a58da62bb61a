//! Storing the deletions of a commit.
//!
//! A commit stores one Puffin file for each data file that it deletes rows
//! in, before the manifest that points at them is published. Each Puffin file
//! holds the new deletions and those that the data file has already.

use vstd::prelude::*;
use vstd::string::*;

use crate::iceberg::deletion_vector::{DeletionVector, PuffinEncoded};
use crate::iceberg::dv_merge::{
    decode_existing, encode_merged, existing_blob, puffin_object_key, puffin_relative_path,
    BlobRange,
};
use crate::iceberg::manifest::{DvLocation, Manifest, ManifestEntry};
use crate::textmap::TextMap;
use crate::types::error::{ErrorView, Result};

verus! {

/// Where a catalog keeps its files.
#[derive(Debug, Clone, Copy, PartialEq, Eq, Structural)]
pub enum Place {
    /// A directory.
    Directory,
    /// An object store.
    Bucket,
}

/// How far a commit got.
#[derive(Debug, Clone, Copy, PartialEq, Eq, Structural)]
pub enum CommitStage {
    /// It was storing deletions.
    Deletions,
    /// It was building the new manifest.
    Building,
    /// It was publishing the new manifest.
    Publishing,
}

/// New deletions of one data file.
#[derive(Debug)]
pub struct PendingDv {
    pub path: String,
    pub rows: DeletionVector,
}

/// The deletions that a commit stores.
#[derive(Debug)]
pub struct DvUpload {
    place: Place,
    version: i64,
    pending: Vec<PendingDv>,
    locations: Vec<DvLocation>,
}

/// A Puffin file to store.
#[derive(Debug)]
pub struct DvWrite {
    /// Where it goes, as the manifest will name it.
    pub dv_path: String,
    pub encoded: PuffinEncoded,
}

/// The deletion vector that the manifest records for a path: that of the
/// first live entry, where it has one.
pub open spec fn recorded_in(entries: Seq<ManifestEntry>, path: Seq<char>) -> Option<
    (Seq<char>, i64, i64),
> {
    if crate::iceberg::manifest::none_live(entries, path) {
        None
    } else {
        crate::iceberg::dv_merge::recorded_dv(
            entries[choose|i: int| crate::iceberg::manifest::first_live(entries, path, i)],
        )
    }
}

/// There is only one first live entry.
proof fn lemma_first_live_is_unique(
    entries: Seq<ManifestEntry>,
    path: Seq<char>,
    i: int,
)
    requires
        crate::iceberg::manifest::first_live(entries, path, i),
    ensures
        !crate::iceberg::manifest::none_live(entries, path),
        recorded_in(entries, path) == crate::iceberg::dv_merge::recorded_dv(entries[i]),
{
    let j = choose|j: int| crate::iceberg::manifest::first_live(entries, path, j);
    assert(crate::iceberg::manifest::first_live(entries, path, j));
    if i < j {
        assert(!(crate::iceberg::manifest::is_live(entries[i]) && entries[i].path@ == path));
    } else if j < i {
        assert(!(crate::iceberg::manifest::is_live(entries[j]) && entries[j].path@ == path));
    }
    assert(crate::iceberg::manifest::is_live(entries[i]) && entries[i].path@ == path);
}

/// The blob that the manifest records for a path.
pub fn recorded_blob(base: &Manifest, parquet_path: &str) -> (r: Option<BlobRange>)
    ensures
        match r {
            Some(b) => recorded_in(base.entries@, parquet_path@) == Some(
                (b.dv_path@, b.offset, b.length),
            ),
            None => recorded_in(base.entries@, parquet_path@) is None,
        },
        forall|i: int|
            0 <= i < base.entries@.len() && (#[trigger] base.entries@[i]).path@ == parquet_path@
                && base.entries@[i].status@ != "deleted"@ && (forall|k: int|
                0 <= k < i ==> (#[trigger] base.entries@[k]).path@ != parquet_path@
                    || base.entries@[k].status@ == "deleted"@) && base.entries@[i].dv_path is Some
                && base.entries@[i].dv_offset is Some && base.entries@[i].dv_length is Some
                ==> (r matches Some(b) && b.dv_path@ == base.entries@[i].dv_path->0@ && Some(
                b.offset,
            ) == base.entries@[i].dv_offset && Some(b.length) == base.entries@[i].dv_length),
{
    let i: usize = match base.find_live(parquet_path) {
        Some(i) => i,
        None => return None,
    };
    proof {
        lemma_first_live_is_unique(base.entries@, parquet_path@, i as int);
    }
    let entry = &base.entries[i];
    match (&entry.dv_path, entry.dv_offset, entry.dv_length) {
        (Some(dv_path), Some(offset), Some(length)) => {
            Some(BlobRange { dv_path: dv_path.clone(), offset, length })
        },
        _ => None,
    }
}

/// The name of the Puffin file of a data file, as the manifest records it.
pub open spec fn dv_path_of(place: Place, parquet_path: Seq<char>, version: i64) -> Seq<char> {
    let dir = crate::iceberg::dv_merge::puffin_dir(parquet_path);
    let name = crate::iceberg::dv_merge::puffin_name(parquet_path, version);
    match place {
        Place::Directory => crate::paths::joined_path(dir, name),
        Place::Bucket => dir + "/"@ + name,
    }
}

impl DvWrite {
    /// Whether this is what stores the deletions `rows` of a data file.
    pub open spec fn stores(
        &self,
        place: Place,
        parquet_path: Seq<char>,
        version: i64,
        rows: Set<u32>,
    ) -> bool {
        let p = self.encoded;
        &&& self.dv_path@ == dv_path_of(place, parquet_path, version)
        &&& p.is_puffin(rows, parquet_path, version, version)
        &&& crate::iceberg::deletion_vector::blob_decoded(p.blob()) == Ok::<
            Set<u32>,
            ErrorView,
        >(rows)
        &&& crate::iceberg::deletion_vector::puffin_decoded(p.bytes@) == Ok::<
            Set<u32>,
            ErrorView,
        >(rows)
        &&& crate::iceberg::deletion_vector::puffin_data_file(p.bytes@) == Ok::<
            Seq<char>,
            ErrorView,
        >(parquet_path)
    }
}

impl DvUpload {
    /// Where the catalog keeps its files.
    pub closed spec fn place(&self) -> Place {
        self.place
    }

    /// The version that the commit makes.
    pub closed spec fn version(&self) -> i64 {
        self.version
    }

    /// The data files with new deletions, in the order in which they are
    /// stored.
    pub closed spec fn paths(&self) -> Seq<Seq<char>> {
        Seq::new(self.pending@.len(), |i: int| self.pending@[i].path@)
    }

    /// The new deletions of each of these data files.
    pub closed spec fn rows(&self) -> Seq<Set<u32>> {
        Seq::new(self.pending@.len(), |i: int| self.pending@[i].rows@)
    }

    /// Where the deletions were stored that are stored so far.
    pub closed spec fn stored(&self) -> Seq<DvLocation> {
        self.locations@
    }

    /// Every location is that of its own data file at this version.
    pub open spec fn wf(&self) -> bool {
        &&& self.stored().len() <= self.paths().len()
        &&& self.rows().len() == self.paths().len()
        &&& self.paths().no_duplicates()
        &&& forall|i: int|
            0 <= i < self.stored().len() ==> (#[trigger] self.stored()[i]).dv_path@ == dv_path_of(
                self.place(),
                self.paths()[i],
                self.version(),
            ) && self.stored()[i].dv_offset == 4
    }

    /// Whether everything is stored.
    pub open spec fn complete(&self) -> bool {
        self.stored().len() == self.paths().len()
    }

    /// The data file whose deletions are stored next.
    pub open spec fn current(&self) -> Seq<char> {
        self.paths()[self.stored().len() as int]
    }

    /// The deletions that are stored next: the new ones of the data file and
    /// those that it has already.
    pub open spec fn all_rows(&self, existing: Option<DeletionVector>) -> Set<u32> {
        let new_rows = self.rows()[self.stored().len() as int];
        match existing {
            Some(dv) => dv@.union(new_rows),
            None => new_rows,
        }
    }

    /// Begins to store the deletions of a commit.
    pub fn start(place: Place, dvs: &TextMap<DeletionVector>, version: i64) -> (r: Self)
        ensures
            r.wf(),
            r.place() == place,
            r.version() == version,
            r.paths() == dvs.key_order(),
            forall|i: int|
                0 <= i < r.paths().len() ==> dvs@.contains_key(#[trigger] r.paths()[i])
                    && r.rows()[i] == dvs@[r.paths()[i]]@,
            forall|k: Seq<char>| dvs@.contains_key(k) <==> r.paths().contains(k),
            r.stored().len() == 0,
    {
        let n: usize = dvs.len();
        let mut pending: Vec<PendingDv> = Vec::new();
        let mut i: usize = 0;
        while i < n
            invariant
                i <= n,
                n == dvs.key_order().len(),
                forall|k: Seq<char>| dvs@.contains_key(k) <==> dvs.key_order().contains(k),
                pending@.len() == i,
                forall|j: int|
                    0 <= j < i ==> (#[trigger] pending@[j]).path@ == dvs.key_order()[j]
                        && pending@[j].rows@ == dvs@[dvs.key_order()[j]]@,
            decreases n - i,
        {
            let path = dvs.key_at(i).clone();
            let rows = dvs.value_at(i).clone();
            pending.push(PendingDv { path, rows });
            i = i + 1;
        }
        let r = DvUpload { place, version, pending, locations: Vec::new() };
        proof {
            assert(r.paths() =~= dvs.key_order());
            assert forall|i: int| 0 <= i < r.paths().len() implies dvs@.contains_key(
                #[trigger] r.paths()[i],
            ) && r.rows()[i] == dvs@[r.paths()[i]]@ by {
                assert(dvs.key_order().contains(r.paths()[i]));
                assert(pending@[i].path@ == dvs.key_order()[i]);
            }
        }
        r
    }

    /// Whether everything is stored.
    pub fn is_complete(&self) -> (r: bool)
        requires
            self.wf(),
        ensures
            r == self.complete(),
    {
        self.locations.len() == self.pending.len()
    }

    /// The data file whose deletions are stored next.
    pub fn current_path(&self) -> (r: &String)
        requires
            self.wf(),
            !self.complete(),
        ensures
            r@ == self.current(),
    {
        &self.pending[self.locations.len()].path
    }

    /// Which blob to read before the next deletions can be stored: the one
    /// with the deletions that the data file has already, if it has any. In
    /// an object store the data file has to be live.
    pub fn source(&self, base: &Manifest) -> (r: Result<Option<BlobRange>>)
        requires
            self.wf(),
            !self.complete(),
        ensures
            match r {
                Ok(Some(b)) => {
                    &&& recorded_in(base.entries@, self.current()) == Some(
                        (b.dv_path@, b.offset, b.length),
                    )
                    &&& self.place() == Place::Bucket ==> b.offset >= 0 && b.length >= 0
                },
                Ok(None) => {
                    &&& recorded_in(base.entries@, self.current()) is None
                    &&& self.place() == Place::Bucket ==> !crate::iceberg::manifest::none_live(
                        base.entries@,
                        self.current(),
                    )
                },
                Err(e) => {
                    &&& self.place() == Place::Bucket
                    &&& if crate::iceberg::manifest::none_live(base.entries@, self.current()) {
                        e@ == crate::iceberg::dv_merge::no_live_entry_error(self.current())
                    } else {
                        recorded_in(base.entries@, self.current()) matches Some(d) && (d.1 < 0
                            || d.2 < 0) && e@ == crate::iceberg::dv_merge::negative_range_error(
                            self.current(),
                            d.1,
                            d.2,
                        )
                    }
                },
            },
            forall|i: int|
                0 <= i < base.entries@.len() && (#[trigger] base.entries@[i]).path@
                    == self.current() && base.entries@[i].status@ != "deleted"@ && (forall|k: int|
                    0 <= k < i ==> (#[trigger] base.entries@[k]).path@ != self.current()
                        || base.entries@[k].status@ == "deleted"@)
                    && base.entries@[i].dv_path is Some && (base.entries@[i].dv_offset matches Some(
                    o,
                ) && o >= 0) && (base.entries@[i].dv_length matches Some(n) && n >= 0)
                    ==> (r matches Ok(Some(b)) && b.dv_path@ == base.entries@[i].dv_path->0@
                    && Some(b.offset) == base.entries@[i].dv_offset && Some(b.length)
                    == base.entries@[i].dv_length),
    {
        let path: &str = self.current_path().as_str();
        match self.place {
            Place::Directory => Ok(recorded_blob(base, path)),
            Place::Bucket => {
                let r = existing_blob(base, path);
                proof {
                    let entries = base.entries@;
                    if exists|i: int| crate::iceberg::manifest::first_live(entries, path@, i) {
                        let i = choose|i: int|
                            crate::iceberg::manifest::first_live(entries, path@, i);
                        lemma_first_live_is_unique(entries, path@, i);
                    }
                    assert forall|i: int| #[trigger]
                        crate::iceberg::manifest::first_live(
                            entries,
                            path@,
                            i,
                        ) implies recorded_in(entries, path@)
                        == crate::iceberg::dv_merge::recorded_dv(entries[i])
                        && !crate::iceberg::manifest::none_live(entries, path@) by {
                        lemma_first_live_is_unique(entries, path@, i);
                    }
                }
                r
            },
        }
    }

    /// The deletions that the data file has already, from what was read: the
    /// whole Puffin file in a directory, the blob alone in an object store.
    pub fn existing(&self, range: &BlobRange, bytes: &[u8]) -> (r: Result<DeletionVector>)
        requires
            self.wf(),
            !self.complete(),
        ensures
            ({
                let want = match self.place() {
                    Place::Directory => crate::iceberg::dv_merge::existing_decoded(
                        self.current(),
                        range.offset,
                        range.length,
                        bytes@,
                    ),
                    Place::Bucket => crate::iceberg::deletion_vector::blob_decoded(bytes@),
                };
                match r {
                    Ok(dv) => want == Ok::<Set<u32>, ErrorView>(dv@),
                    Err(e) => want == Err::<Set<u32>, ErrorView>(e@),
                }
            }),
    {
        match self.place {
            Place::Directory => decode_existing(
                self.current_path().as_str(),
                range.offset,
                range.length,
                bytes,
            ),
            Place::Bucket => DeletionVector::from_puffin_blob(bytes),
        }
    }

    /// The Puffin file to store next: the new deletions of the data file and
    /// those that it has already.
    pub fn encode(&self, existing: Option<DeletionVector>) -> (r: Result<DvWrite>)
        requires
            self.wf(),
            !self.complete(),
        ensures
            match r {
                Ok(w) => w.stores(
                    self.place(),
                    self.current(),
                    self.version(),
                    self.all_rows(existing),
                ),
                Err(e) => crate::iceberg::deletion_vector::not_encodable(
                    self.all_rows(existing),
                    self.current(),
                    self.version(),
                    self.version(),
                    e@,
                ),
            },
    {
        let next: &PendingDv = &self.pending[self.locations.len()];
        let path: &str = next.path.as_str();
        let encoded = match encode_merged(path, existing, &next.rows, self.version) {
            Ok(p) => p,
            Err(e) => return Err(e),
        };
        let dv_path = match self.place {
            Place::Directory => puffin_relative_path(path, self.version),
            Place::Bucket => puffin_object_key(path, self.version),
        };
        Ok(DvWrite { dv_path, encoded })
    }

    /// Takes down that a Puffin file was stored: the manifest will point at
    /// the real range of its blob.
    pub fn stored_one(&mut self, written: DvWrite)
        requires
            old(self).wf(),
            !old(self).complete(),
            written.dv_path@ == dv_path_of(
                old(self).place(),
                old(self).current(),
                old(self).version(),
            ),
            written.encoded.blob_offset == 4,
        ensures
            final(self).wf(),
            final(self).place() == old(self).place(),
            final(self).version() == old(self).version(),
            final(self).paths() == old(self).paths(),
            final(self).rows() == old(self).rows(),
            final(self).stored() == old(self).stored().push(
                (DvLocation {
                    dv_path: written.dv_path,
                    dv_offset: written.encoded.blob_offset,
                    dv_length: written.encoded.blob_length,
                }),
            ),
    {
        self.locations.push(
            DvLocation {
                dv_path: written.dv_path,
                dv_offset: written.encoded.blob_offset,
                dv_length: written.encoded.blob_length,
            },
        );
    }

    /// The Puffin files to delete after a commit that failed: no manifest will
    /// ever point at them. In a directory these are all that were stored,
    /// whichever step failed; in an object store the files are deleted once
    /// the manifest was being published, and left to later cleaning before.
    pub fn orphans(&self, failed_at: CommitStage) -> (r: Vec<String>)
        ensures
            crate::text::texts(r@) == if self.place() == Place::Directory || failed_at
                == CommitStage::Publishing {
                stored_paths(self.stored())
            } else {
                Seq::empty()
            },
    {
        let mut r: Vec<String> = Vec::new();
        assert(crate::text::texts(r@) =~= Seq::empty());
        let swept = match self.place {
            Place::Directory => true,
            Place::Bucket => matches!(failed_at, CommitStage::Publishing),
        };
        if !swept {
            return r;
        }
        let mut i: usize = 0;
        assert(stored_paths(self.locations@).take(0) =~= Seq::empty());
        while i < self.locations.len()
            invariant
                i <= self.locations@.len(),
                crate::text::texts(r@) == stored_paths(self.locations@).take(i as int),
            decreases self.locations@.len() - i,
        {
            let ghost before = r@;
            r.push(self.locations[i].dv_path.clone());
            assert(crate::text::texts(r@) =~= crate::text::texts(before).push(
                self.locations@[i as int].dv_path@,
            ));
            assert(stored_paths(self.locations@).take(i + 1) =~= stored_paths(
                self.locations@,
            ).take(i as int).push(self.locations@[i as int].dv_path@));
            i = i + 1;
        }
        assert(stored_paths(self.locations@).take(i as int) =~= stored_paths(self.locations@));
        r
    }

    /// Where the deletions of every data file of the commit were stored. None
    /// is missing: a manifest without one of them would bring deleted rows
    /// back.
    pub fn locations(&self) -> (r: TextMap<DvLocation>)
        requires
            self.wf(),
            self.complete(),
        ensures
            r.key_order() == self.paths(),
            forall|k: Seq<char>| r@.contains_key(k) <==> self.paths().contains(k),
            forall|i: int|
                0 <= i < self.paths().len() ==> r@[#[trigger] self.paths()[i]]
                    == self.stored()[i],
    {
        let mut r: TextMap<DvLocation> = TextMap::new();
        let mut i: usize = 0;
        let ghost paths = self.paths();
        let ghost stored = self.stored();
        assert(paths.take(0) =~= Seq::empty());
        while i < self.pending.len()
            invariant
                i <= self.pending@.len(),
                self.pending@.len() == self.locations@.len(),
                paths == self.paths(),
                paths.len() == self.pending@.len(),
                stored == self.locations@,
                paths.no_duplicates(),
                r.key_order() == paths.take(i as int),
                forall|k: Seq<char>| r@.contains_key(k) <==> paths.take(i as int).contains(k),
                forall|j: int| 0 <= j < i ==> r@[#[trigger] paths[j]] == stored[j],
            decreases self.pending@.len() - i,
        {
            let location = DvLocation {
                dv_path: self.locations[i].dv_path.clone(),
                dv_offset: self.locations[i].dv_offset,
                dv_length: self.locations[i].dv_length,
            };
            proof {
                assert(paths[i as int] == self.pending@[i as int].path@);
                if paths.take(i as int).contains(paths[i as int]) {
                    let j = choose|j: int|
                        0 <= j < i && paths.take(i as int)[j] == paths[i as int];
                    assert(paths[j] == paths[i as int]);
                }
                assert(paths.take(i + 1) =~= paths.take(i as int).push(paths[i as int]));
            }
            let ghost before = r@;
            r.insert(self.pending[i].path.clone(), location);
            proof {
                assert forall|k: Seq<char>| r@.contains_key(k) <==> paths.take(
                    i + 1,
                ).contains(k) by {
                    if k == paths[i as int] {
                        assert(paths.take(i + 1)[i as int] == k);
                    } else if paths.take(i as int).contains(k) {
                        let j = choose|j: int| 0 <= j < i && paths.take(i as int)[j] == k;
                        assert(paths.take(i + 1)[j] == k);
                    } else if paths.take(i + 1).contains(k) {
                        let upto = paths.take(i + 1);
                        let j = choose|j: int| 0 <= j < upto.len() && upto[j] == k;
                        assert(paths.take(i as int)[j] == k);
                    }
                }
            }
            i = i + 1;
        }
        assert(paths.take(i as int) =~= paths);
        r
    }
}

/// The names of stored Puffin files.
pub open spec fn stored_paths(stored: Seq<DvLocation>) -> Seq<Seq<char>> {
    Seq::new(stored.len(), |i: int| stored[i].dv_path@)
}

/// Rows that one commit deleted stay deleted in the next: reading back what
/// the first stored and storing it together with new deletions keeps both.
pub proof fn law_deleted_rows_stay_deleted(
    place: Place,
    path: Seq<char>,
    first: DvWrite,
    first_version: i64,
    deleted: Set<u32>,
    second: DvWrite,
    second_version: i64,
    existing: Set<u32>,
    new_rows: Set<u32>,
)
    requires
        first.stores(place, path, first_version, deleted),
        match place {
            Place::Directory => crate::iceberg::dv_merge::existing_decoded(
                path,
                first.encoded.blob_offset,
                first.encoded.blob_length,
                first.encoded.bytes@,
            ),
            Place::Bucket => crate::iceberg::deletion_vector::blob_decoded(first.encoded.blob()),
        } == Ok::<Set<u32>, ErrorView>(existing),
        second.stores(place, path, second_version, existing.union(new_rows)),
    ensures
        crate::iceberg::deletion_vector::blob_decoded(second.encoded.blob()) == Ok::<
            Set<u32>,
            ErrorView,
        >(deleted.union(new_rows)),
        deleted.subset_of(deleted.union(new_rows)),
{
}

/// What the manifest records of a data file is what its first live entry
/// says, at whatever level the file is: with path, offset and length all
/// given it is these three, and otherwise nothing.
pub proof fn law_first_live_entry_is_what_is_read(
    entries: Seq<ManifestEntry>,
    path: Seq<char>,
    i: int,
)
    requires
        0 <= i < entries.len(),
        entries[i].path@ == path,
        entries[i].status@ != "deleted"@,
        forall|k: int|
            0 <= k < i ==> (#[trigger] entries[k]).path@ != path || entries[k].status@
                == "deleted"@,
    ensures
        entries[i].dv_path is Some && entries[i].dv_offset is Some && entries[i].dv_length is Some
            ==> recorded_in(entries, path) == Some(
            (entries[i].dv_path->0@, entries[i].dv_offset->0, entries[i].dv_length->0),
        ),
        entries[i].dv_path is None || entries[i].dv_offset is None || entries[i].dv_length is None
            ==> recorded_in(entries, path) is None,
{
    assert(crate::iceberg::manifest::first_live(entries, path, i));
    lemma_first_live_is_unique(entries, path, i);
}

/// No commit brings a deleted row back. Take a live data file, at whatever
/// level, whose entry records a deletion vector, read those deletions from
/// where the entry says they are, and store them together with new ones: the
/// rows that were deleted before are deleted in the Puffin file of the commit,
/// and so are the new ones, and no others.
pub proof fn law_commit_keeps_recorded_deletions(
    upload: DvUpload,
    base: Manifest,
    i: int,
    puffin: Seq<u8>,
    old_rows: Set<u32>,
    existing: Option<DeletionVector>,
    written: DvWrite,
)
    requires
        upload.wf(),
        !upload.complete(),
        0 <= i < base.entries@.len(),
        base.entries@[i].path@ == upload.paths()[upload.stored().len() as int],
        base.entries@[i].status@ != "deleted"@,
        forall|k: int|
            0 <= k < i ==> (#[trigger] base.entries@[k]).path@ != base.entries@[i].path@
                || base.entries@[k].status@ == "deleted"@,
        base.entries@[i].dv_path is Some,
        base.entries@[i].dv_offset matches Some(o) && o >= 0,
        base.entries@[i].dv_length matches Some(n) && n >= 0,
        base.entries@[i].dv_offset->0 + base.entries@[i].dv_length->0 <= puffin.len(),
        crate::iceberg::deletion_vector::blob_decoded(
            puffin.subrange(
                base.entries@[i].dv_offset->0 as int,
                base.entries@[i].dv_offset->0 + base.entries@[i].dv_length->0,
            ),
        ) == Ok::<Set<u32>, ErrorView>(old_rows),
        recorded_in(base.entries@, upload.current()) is None ==> existing is None,
        recorded_in(base.entries@, upload.current()) matches Some(d) ==> (existing matches Some(dv)
            && match upload.place() {
            Place::Directory => crate::iceberg::dv_merge::existing_decoded(
                upload.current(),
                d.1,
                d.2,
                puffin,
            ),
            Place::Bucket => crate::iceberg::deletion_vector::blob_decoded(
                puffin.subrange(d.1 as int, d.1 + d.2),
            ),
        } == Ok::<Set<u32>, ErrorView>(dv@)),
        written.stores(
            upload.place(),
            upload.current(),
            upload.version(),
            upload.all_rows(existing),
        ),
    ensures
        crate::iceberg::deletion_vector::blob_decoded(written.encoded.blob()) matches Ok(rows)
            && old_rows.subset_of(rows) && upload.rows()[upload.stored().len() as int].subset_of(
            rows,
        ) && rows.subset_of(old_rows.union(upload.rows()[upload.stored().len() as int])),
{
    law_first_live_entry_is_what_is_read(base.entries@, base.entries@[i].path@, i);
}

/// What is stored next deletes a row exactly when the data file's new
/// deletions or those that it has already do.
pub proof fn law_stored_rows_are_old_and_new(
    upload: DvUpload,
    existing: Option<DeletionVector>,
    row: u32,
)
    requires
        upload.wf(),
        !upload.complete(),
    ensures
        upload.all_rows(existing).contains(row) <==> upload.rows()[upload.stored().len() as int]
            .contains(row) || (existing matches Some(dv) && dv@.contains(row)),
        upload.current() == upload.paths()[upload.stored().len() as int],
        upload.complete() <==> upload.stored().len() == upload.paths().len(),
{
}

/// The Puffin file of a data file lies in the data file's directory, under a
/// name of the data file's stem and the version, wherever a catalog keeps its
/// files.
pub proof fn law_puffin_path_names_data_file_and_version(
    place: Place,
    dir: Seq<char>,
    stem: Seq<char>,
    extension: Seq<char>,
    version: i64,
)
    requires
        stem.len() > 0,
        extension.len() > 0,
        forall|i: int| 0 <= i < stem.len() ==> #[trigger] stem[i] != '/',
        forall|i: int|
            0 <= i < extension.len() ==> #[trigger] extension[i] != '/' && extension[i] != '.',
        dir.len() > 0,
        dir.last() != '/',
        dir.len() > 1 && dir.last() == '.' ==> dir[dir.len() - 2] != '/',
    ensures
        dv_path_of(place, dir + seq!['/'] + stem + seq!['.'] + extension, version) == dir + seq![
            '/',
        ] + stem + ".dv-"@ + crate::text::dec_int(version as int) + ".puffin"@,
{
    let path = dir + seq!['/'] + stem + seq!['.'] + extension;
    let name = stem + ".dv-"@ + crate::text::dec_int(version as int) + ".puffin"@;
    crate::iceberg::dv_merge::law_puffin_lies_beside_its_data_file(dir, stem, extension, version);
    reveal_strlit("/");
    assert("/"@ =~= seq!['/']);
    assert(name[0] == stem[0]);
    crate::paths::law_joined_path_keeps_both_parts(dir, name);
    assert(dir + seq!['/'] + name =~= dir + seq!['/'] + stem + ".dv-"@ + crate::text::dec_int(
        version as int,
    ) + ".puffin"@);
    assert(crate::paths::joined_path(dir, name) =~= dir + seq!['/'] + name);
}

/// Stored Puffin files are named one for one and in order.
pub proof fn law_stored_files_are_named(stored: Seq<DvLocation>)
    ensures
        stored_paths(stored).len() == stored.len(),
        forall|i: int|
            0 <= i < stored.len() ==> #[trigger] stored_paths(stored)[i] == stored[i].dv_path@,
{
}

/// What is stored for a data file goes where the manifest will look for it,
/// is a Puffin file of the rows for that data file and version, and reads back
/// as such, whole or by its blob.
pub proof fn law_stored_file_reads_back(
    w: DvWrite,
    place: Place,
    path: Seq<char>,
    version: i64,
    rows: Set<u32>,
)
    requires
        w.stores(place, path, version, rows),
    ensures
        w.dv_path@ == dv_path_of(place, path, version),
        w.encoded.blob_offset == 4,
        w.encoded.blob_length >= 0,
        w.encoded.blob_offset + w.encoded.blob_length <= w.encoded.bytes@.len(),
        crate::iceberg::deletion_vector::blob_decoded(
            w.encoded.bytes@.subrange(4, 4 + w.encoded.blob_length as int),
        ) == Ok::<Set<u32>, ErrorView>(rows),
        crate::iceberg::deletion_vector::puffin_decoded(w.encoded.bytes@) == Ok::<
            Set<u32>,
            ErrorView,
        >(rows),
        crate::iceberg::deletion_vector::puffin_data_file(w.encoded.bytes@) == Ok::<
            Seq<char>,
            ErrorView,
        >(path),
{
    crate::iceberg::deletion_vector::law_recorded_range_holds_the_rows(
        w.encoded,
        rows,
        path,
        version,
        version,
    );
}

/// Every location that was taken down is that of its own data file at the
/// version of the commit, and no data file has two.
pub proof fn law_locations_belong_to_their_files(upload: DvUpload, i: int, j: int)
    requires
        upload.wf(),
        0 <= i < j < upload.stored().len(),
    ensures
        upload.stored().len() <= upload.paths().len(),
        upload.paths()[i] != upload.paths()[j],
        upload.stored()[i].dv_path@ == dv_path_of(
            upload.place(),
            upload.paths()[i],
            upload.version(),
        ),
        upload.stored()[i].dv_offset == 4,
{
}

} // verus!
