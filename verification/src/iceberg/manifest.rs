//! What catalogs read of a manifest.

use vstd::prelude::*;
use vstd::string::*;

use crate::text::same_text;
use crate::types::level::ParquetFileMeta;

verus! {

/// One data file of a manifest. An entry with status `deleted` only records
/// that the file was removed.
#[derive(Debug)]
pub struct ManifestEntry {
    pub path: String,
    pub meta: ParquetFileMeta,
    pub status: String,
    pub dv_path: Option<String>,
    pub dv_offset: Option<i64>,
    pub dv_length: Option<i64>,
}

/// The state of a table at one snapshot.
#[derive(Debug)]
pub struct Manifest {
    pub table_uuid: String,
    pub snapshot_id: i64,
    pub sequence_number: i64,
    pub parent_snapshot_id: Option<i64>,
    pub entries: Vec<ManifestEntry>,
}

/// Where a deletion vector was stored.
#[derive(Debug)]
pub struct DvLocation {
    pub dv_path: String,
    pub dv_offset: i64,
    pub dv_length: i64,
}

/// Whether an entry's file belongs to the table.
pub open spec fn is_live(e: ManifestEntry) -> bool {
    e.status@ != "deleted"@
}

/// Whether `i` is the first live entry for the path.
pub open spec fn first_live(entries: Seq<ManifestEntry>, path: Seq<char>, i: int) -> bool {
    &&& 0 <= i < entries.len()
    &&& is_live(entries[i])
    &&& entries[i].path@ == path
    &&& forall|k: int|
        0 <= k < i ==> !(is_live(#[trigger] entries[k]) && entries[k].path@ == path)
}

/// Whether no live entry has the path.
pub open spec fn none_live(entries: Seq<ManifestEntry>, path: Seq<char>) -> bool {
    forall|k: int|
        0 <= k < entries.len() ==> !(is_live(#[trigger] entries[k]) && entries[k].path@ == path)
}

impl ManifestEntry {
    /// Whether the entry's file belongs to the table.
    pub fn live(&self) -> (r: bool)
        ensures
            r == is_live(*self),
    {
        !same_text(self.status.as_str(), "deleted")
    }
}

impl Manifest {
    /// The first live entry for a path.
    pub fn find_live(&self, path: &str) -> (r: Option<usize>)
        ensures
            match r {
                Some(i) => first_live(self.entries@, path@, i as int),
                None => none_live(self.entries@, path@),
            },
    {
        let mut i: usize = 0;
        while i < self.entries.len()
            invariant
                i <= self.entries@.len(),
                forall|k: int|
                    0 <= k < i ==> !(is_live(#[trigger] self.entries@[k]) && self.entries@[k].path@
                        == path@),
            decreases self.entries@.len() - i,
        {
            if self.entries[i].live() && same_text(self.entries[i].path.as_str(), path) {
                return Some(i);
            }
            i = i + 1;
        }
        None
    }
}

/// An entry is live unless its status is `deleted`; the first live entry of a
/// path is the one before which no entry of that path is live; and a path is
/// without a live entry exactly when none is the first.
pub proof fn law_first_live_entry(entries: Seq<ManifestEntry>, path: Seq<char>, i: int)
    ensures
        0 <= i < entries.len() ==> (is_live(entries[i]) <==> entries[i].status@ != "deleted"@),
        first_live(entries, path, i) <==> 0 <= i < entries.len() && entries[i].path@ == path
            && entries[i].status@ != "deleted"@ && forall|k: int|
            0 <= k < i ==> (#[trigger] entries[k]).path@ != path || entries[k].status@
                == "deleted"@,
        none_live(entries, path) <==> forall|k: int|
            0 <= k < entries.len() ==> (#[trigger] entries[k]).path@ != path || entries[k].status@
                == "deleted"@,
        first_live(entries, path, i) ==> !none_live(entries, path),
{
    if first_live(entries, path, i) {
        assert(is_live(entries[i]) && entries[i].path@ == path);
    }
    assert forall|k: int| 0 <= k < entries.len() implies (is_live(#[trigger] entries[k])
        && entries[k].path@ == path) == !(entries[k].path@ != path || entries[k].status@
        == "deleted"@) by {}
}

} // verus!
