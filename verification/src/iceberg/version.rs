//! [`Version`]: which files exist at each level, and [`VersionSet`]: the
//! version that readers see.

use std::collections::HashMap;
use std::sync::Arc;

use vstd::prelude::*;

use crate::keyorder::is_less_or_equal;
use crate::types::level::{copy_opt_text, Level, MetaView, ParquetFileMeta};
use crate::types::schema::TableSchema;

verus! {

broadcast use vstd::std_specs::hash::group_hash_axioms;

/// One Parquet file of the LSM, with its deletion vector if it has one.
#[derive(Debug)]
pub struct DataFileMeta {
    /// Object-store path of the file.
    pub path: String,
    /// Metadata from the file's footer.
    pub meta: ParquetFileMeta,
    /// Path of the Puffin file, if any.
    pub dv_path: Option<String>,
    /// Where the blob starts in the Puffin file.
    pub dv_offset: Option<i64>,
    /// How long the blob is.
    pub dv_length: Option<i64>,
}

/// [`DataFileMeta`] with its texts and keys as sequences.
#[verifier::ext_equal]
pub struct DataFileView {
    pub path: Seq<char>,
    pub meta: MetaView,
    pub dv_path: Option<Seq<char>>,
    pub dv_offset: Option<i64>,
    pub dv_length: Option<i64>,
}

impl View for DataFileMeta {
    type V = DataFileView;

    open spec fn view(&self) -> DataFileView {
        DataFileView {
            path: self.path@,
            meta: self.meta@,
            dv_path: crate::types::level::opt_text(self.dv_path),
            dv_offset: self.dv_offset,
            dv_length: self.dv_length,
        }
    }
}

impl Clone for DataFileMeta {
    fn clone(&self) -> (r: Self)
        ensures
            r@ == self@,
    {
        DataFileMeta {
            path: self.path.clone(),
            meta: self.meta.clone(),
            dv_path: copy_opt_text(&self.dv_path),
            dv_offset: self.dv_offset,
            dv_length: self.dv_length,
        }
    }
}

impl DataFileMeta {
    /// Whether the file has a deletion vector.
    pub fn has_dv(&self) -> (r: bool)
        ensures
            r == (self.dv_path is Some),
    {
        self.dv_path.is_some()
    }
}

/// Whether files are sorted by their smallest key.
pub open spec fn sorted_by_key_min(files: Seq<DataFileMeta>) -> bool {
    forall|i: int, j: int|
        0 <= i <= j < files.len() ==> crate::keyorder::key_le(
            (#[trigger] files[i]).meta.key_min@,
            (#[trigger] files[j]).meta.key_min@,
        )
}

/// Whether no two files share a key: each ends before the next begins.
pub open spec fn non_overlapping(files: Seq<DataFileMeta>) -> bool {
    &&& forall|i: int|
        0 <= i < files.len() ==> crate::keyorder::key_le(
            (#[trigger] files[i]).meta.key_min@,
            files[i].meta.key_max@,
        )
    &&& forall|i: int, j: int|
        0 <= i < j < files.len() ==> crate::keyorder::key_lt(
            (#[trigger] files[i]).meta.key_max@,
            (#[trigger] files[j]).meta.key_min@,
        )
}

/// Whether no two files share a key, in whatever order they are listed.
pub open spec fn disjoint(files: Seq<DataFileMeta>) -> bool {
    &&& forall|i: int|
        0 <= i < files.len() ==> crate::keyorder::key_le(
            (#[trigger] files[i]).meta.key_min@,
            files[i].meta.key_max@,
        )
    &&& forall|i: int, j: int|
        0 <= i < files.len() && 0 <= j < files.len() && i != j ==> apart(
            (#[trigger] files[i])@,
            (#[trigger] files[j])@,
        )
}

/// Whether one of two files ends before the other begins.
pub open spec fn apart(f: DataFileView, g: DataFileView) -> bool {
    crate::keyorder::key_lt(f.meta.key_max, g.meta.key_min) || crate::keyorder::key_lt(
        g.meta.key_max,
        f.meta.key_min,
    )
}

/// Whether a row of files lists a file.
pub open spec fn lists(files: Seq<DataFileMeta>, f: DataFileView) -> bool {
    exists|i: int| 0 <= i < files.len() && (#[trigger] files[i])@ == f
}

/// Whether the key range of `f` contains `key`.
pub open spec fn covers(f: DataFileMeta, key: Seq<u8>) -> bool {
    crate::keyorder::key_le(f.meta.key_min@, key) && crate::keyorder::key_le(key, f.meta.key_max@)
}

/// Whether `i` is the last file that does not begin behind `key`.
pub open spec fn last_not_behind(files: Seq<DataFileMeta>, key: Seq<u8>, i: int) -> bool {
    &&& 0 <= i < files.len()
    &&& crate::keyorder::key_le(files[i].meta.key_min@, key)
    &&& forall|j: int|
        i < j < files.len() ==> !crate::keyorder::key_le(
            (#[trigger] files[j]).meta.key_min@,
            key,
        )
}

/// Files sizes added up.
pub open spec fn total_size(files: Seq<DataFileMeta>) -> int
    decreases files.len(),
{
    if files.len() == 0 {
        0
    } else {
        total_size(files.drop_last()) + files.last().meta.file_size
    }
}

/// The state of the LSM at one Iceberg snapshot. Level 0 files may overlap;
/// in a deeper level files do not overlap and are sorted by smallest key.
#[derive(Clone, Debug)]
pub struct Version {
    /// The snapshot that made this version.
    pub snapshot_id: i64,
    /// The files of each level, by level number.
    pub levels: HashMap<u8, Vec<DataFileMeta>>,
    /// The table's schema.
    pub schema: Arc<TableSchema>,
}

impl Version {
    /// The files of a level; none where the level is not listed.
    pub open spec fn files(&self, level: int) -> Seq<DataFileMeta> {
        if 0 <= level <= u8::MAX && self.levels@.contains_key(level as u8) {
            self.levels@[level as u8]@
        } else {
            Seq::empty()
        }
    }

    /// Whether a path names one file: what is listed twice under one path is
    /// the same file in the same level.
    pub open spec fn wf(&self) -> bool {
        forall|a: int, b: int, f: DataFileView, g: DataFileView|
            (#[trigger] lists(self.files(a), f)) && (#[trigger] lists(self.files(b), g)) && f.path
                == g.path ==> a == b && f == g
    }

    /// The number of files in the levels below `bound`.
    pub open spec fn count_below(&self, bound: int) -> int
        decreases bound,
    {
        if bound <= 0 {
            0
        } else {
            self.count_below(bound - 1) + self.files(bound - 1).len()
        }
    }

    /// A version without files.
    pub fn empty(schema: Arc<TableSchema>) -> (r: Self)
        ensures
            r.wf(),
            r.snapshot_id == 0,
            r.levels@ == Map::<u8, Vec<DataFileMeta>>::empty(),
            r.schema == schema,
    {
        Version { snapshot_id: 0, levels: HashMap::new(), schema }
    }

    /// The files of a level.
    pub fn files_at(&self, level: Level) -> (r: &[DataFileMeta])
        ensures
            r@ == self.files(level.0 as int),
    {
        match self.levels.get(&level.0) {
            Some(v) => v.as_slice(),
            None => {
                let none: &[DataFileMeta] = &[];
                assert(none@ =~= Seq::empty());
                none
            },
        }
    }

    /// The number of level 0 files.
    pub fn l0_file_count(&self) -> (r: usize)
        ensures
            r == self.files(0).len(),
    {
        self.files_at(Level(0)).len()
    }

    /// The bytes of a level's files. Their sum has to fit 64 bits.
    pub fn level_bytes(&self, level: Level) -> (r: u64)
        requires
            total_size(self.files(level.0 as int)) <= u64::MAX,
        ensures
            r == total_size(self.files(level.0 as int)),
    {
        let files = self.files_at(level);
        let ghost all = files@;
        let mut sum: u64 = 0;
        let mut i: usize = 0;
        while i < files.len()
            invariant
                i <= files@.len(),
                all == files@,
                total_size(all) <= u64::MAX,
                sum == total_size(all.take(i as int)),
            decreases files@.len() - i,
        {
            proof {
                lemma_total_size_prefix(all, i + 1);
                assert(all.take(i + 1).drop_last() =~= all.take(i as int));
            }
            sum = sum + files[i].meta.file_size;
            i = i + 1;
        }
        assert(all.take(i as int) =~= all);
        sum
    }

    /// The deepest level that has files, level 0 when none has.
    pub fn max_level(&self) -> (r: Level)
        ensures
            forall|l: u8| #[trigger] self.files(l as int).len() > 0 ==> l <= r.0,
            self.files(r.0 as int).len() > 0 || (r.0 == 0 && forall|l: u8| #[trigger]
                self.files(l as int).len() == 0),
    {
        let mut l: u8 = 255;
        while l > 0
            invariant
                forall|k: u8| #[trigger] self.files(k as int).len() > 0 ==> k <= l,
            decreases l,
        {
            if self.files_at(Level(l)).len() > 0 {
                return Level(l);
            }
            l = l - 1;
        }
        Level(0)
    }

    /// The file of a level whose key range contains the key, by binary search
    /// for the last file that does not begin behind it. The level's files
    /// must be sorted by smallest key.
    pub fn find_file_for_key(&self, level: Level, user_key_bytes: &[u8]) -> (r: Option<
        &DataFileMeta,
    >)
        requires
            sorted_by_key_min(self.files(level.0 as int)),
        ensures
            match r {
                Some(f) => exists|i: int|
                    {
                        &&& #[trigger] last_not_behind(
                            self.files(level.0 as int),
                            user_key_bytes@,
                            i,
                        )
                        &&& *f == self.files(level.0 as int)[i]
                        &&& covers(*f, user_key_bytes@)
                    },
                None => forall|i: int| #[trigger]
                    last_not_behind(self.files(level.0 as int), user_key_bytes@, i)
                        ==> !crate::keyorder::key_le(
                        user_key_bytes@,
                        self.files(level.0 as int)[i].meta.key_max@,
                    ),
            },
    {
        let files = self.files_at(level);
        let ghost key = user_key_bytes@;
        let mut lo: usize = 0;
        let mut hi: usize = files.len();
        while lo < hi
            invariant
                lo <= hi <= files@.len(),
                key == user_key_bytes@,
                sorted_by_key_min(files@),
                forall|i: int|
                    0 <= i < lo ==> crate::keyorder::key_le(
                        (#[trigger] files@[i]).meta.key_min@,
                        key,
                    ),
                forall|i: int|
                    hi <= i < files@.len() ==> !crate::keyorder::key_le(
                        (#[trigger] files@[i]).meta.key_min@,
                        key,
                    ),
            decreases hi - lo,
        {
            let mid: usize = lo + (hi - lo) / 2;
            if is_less_or_equal(files[mid].meta.key_min.as_slice(), user_key_bytes) {
                proof {
                    assert forall|i: int| 0 <= i < mid + 1 implies crate::keyorder::key_le(
                        (#[trigger] files@[i]).meta.key_min@,
                        key,
                    ) by {
                        assert(crate::keyorder::key_le(
                            files@[i].meta.key_min@,
                            files@[mid as int].meta.key_min@,
                        ));
                        crate::keyorder::lemma_key_le_transitive(
                            files@[i].meta.key_min@,
                            files@[mid as int].meta.key_min@,
                            key,
                        );
                    }
                }
                lo = mid + 1;
            } else {
                proof {
                    assert forall|i: int| mid <= i < files@.len() implies !crate::keyorder::key_le(
                        (#[trigger] files@[i]).meta.key_min@,
                        key,
                    ) by {
                        assert(crate::keyorder::key_le(
                            files@[mid as int].meta.key_min@,
                            files@[i].meta.key_min@,
                        ));
                        if crate::keyorder::key_le(files@[i].meta.key_min@, key) {
                            crate::keyorder::lemma_key_le_transitive(
                                files@[mid as int].meta.key_min@,
                                files@[i].meta.key_min@,
                                key,
                            );
                        }
                    }
                }
                hi = mid;
            }
        }
        if lo == 0 {
            assert forall|i: int| !(#[trigger] last_not_behind(files@, key, i)) by {
                if 0 <= i < files@.len() {
                    assert(!crate::keyorder::key_le(files@[i].meta.key_min@, key));
                }
            }
            return None;
        }
        let candidate: &DataFileMeta = &files[lo - 1];
        proof {
            assert(last_not_behind(files@, key, lo - 1));
            assert forall|i: int| #[trigger] last_not_behind(files@, key, i) implies i == lo
                - 1 by {
                if i < lo - 1 {
                    assert(!crate::keyorder::key_le(files@[lo - 1].meta.key_min@, key));
                } else if i > lo - 1 {
                    assert(!crate::keyorder::key_le(files@[i].meta.key_min@, key));
                }
            }
        }
        if is_less_or_equal(user_key_bytes, candidate.meta.key_max.as_slice()) {
            Some(candidate)
        } else {
            None
        }
    }

    /// The number of files in all levels, which has to fit a machine word.
    pub fn total_files(&self) -> (r: usize)
        requires
            self.count_below(256) <= usize::MAX,
        ensures
            r == self.count_below(256),
    {
        let mut sum: usize = 0;
        let mut l: u16 = 0;
        while l < 256
            invariant
                l <= 256,
                self.count_below(256) <= usize::MAX,
                sum == self.count_below(l as int),
            decreases 256 - l,
        {
            let n: usize = self.files_at(Level(l as u8)).len();
            proof {
                lemma_count_monotone(self, l + 1, 256);
            }
            sum = sum + n;
            l = l + 1;
        }
        sum
    }
}

/// A prefix of the files has no more bytes than all of them.
proof fn lemma_total_size_prefix(files: Seq<DataFileMeta>, k: int)
    requires
        0 <= k <= files.len(),
    ensures
        0 <= total_size(files.take(k)) <= total_size(files),
    decreases files.len(),
{
    if k == files.len() {
        assert(files.take(k) =~= files);
        if k > 0 {
            lemma_total_size_prefix(files.drop_last(), k - 1);
        }
    } else {
        lemma_total_size_prefix(files.drop_last(), k);
        assert(files.drop_last().take(k) =~= files.take(k));
    }
}

/// Sizes add up to no less than 0.
pub proof fn lemma_total_size_is_natural(files: Seq<DataFileMeta>)
    ensures
        0 <= total_size(files),
{
    lemma_total_size_prefix(files, 0);
}

/// Counting more levels does not give fewer files.
proof fn lemma_count_monotone(v: &Version, a: int, b: int)
    requires
        0 <= a <= b,
    ensures
        v.count_below(a) <= v.count_below(b),
    decreases b - a,
{
    if a < b {
        lemma_count_monotone(v, a, b - 1);
    }
}

/// In a level without overlaps, a key lies in at most one file, and that is
/// the last file that does not begin behind the key: binary search misses no
/// file that covers it.
pub proof fn law_lookup_finds_the_covering_file(files: Seq<DataFileMeta>, key: Seq<u8>, i: int)
    requires
        non_overlapping(files),
        0 <= i < files.len(),
        covers(files[i], key),
    ensures
        sorted_by_key_min(files),
        last_not_behind(files, key, i),
        forall|j: int| 0 <= j < files.len() && covers(#[trigger] files[j], key) ==> j == i,
{
    law_non_overlapping_is_sorted(files);
    assert forall|j: int| i < j < files.len() implies !crate::keyorder::key_le(
        (#[trigger] files[j]).meta.key_min@,
        key,
    ) by {
        crate::keyorder::lemma_key_order_total(files[j].meta.key_min@, key);
        crate::keyorder::lemma_key_le_transitive(
            key,
            files[i].meta.key_max@,
            files[j].meta.key_min@,
        );
        crate::keyorder::lemma_key_order_total(key, files[j].meta.key_min@);
    }
    assert forall|j: int| 0 <= j < files.len() && covers(#[trigger] files[j], key) implies j
        == i by {
        if j < i {
            crate::keyorder::lemma_key_le_transitive(
                key,
                files[j].meta.key_max@,
                files[i].meta.key_min@,
            );
            crate::keyorder::lemma_key_order_total(files[i].meta.key_min@, key);
        }
    }
}

/// Files without overlaps, listed in key order, are sorted by smallest key.
pub proof fn law_non_overlapping_is_sorted(files: Seq<DataFileMeta>)
    requires
        non_overlapping(files),
    ensures
        sorted_by_key_min(files),
{
    assert forall|i: int, j: int| 0 <= i <= j < files.len() implies crate::keyorder::key_le(
        (#[trigger] files[i]).meta.key_min@,
        (#[trigger] files[j]).meta.key_min@,
    ) by {
        if i < j {
            crate::keyorder::lemma_key_le_transitive(
                files[i].meta.key_min@,
                files[i].meta.key_max@,
                files[j].meta.key_min@,
            );
        }
    }
}

/// Files without overlaps, listed in key order, are disjoint.
pub proof fn law_non_overlapping_is_disjoint(files: Seq<DataFileMeta>)
    requires
        non_overlapping(files),
    ensures
        disjoint(files),
{
    assert forall|i: int, j: int|
        0 <= i < files.len() && 0 <= j < files.len() && i != j implies apart(
        (#[trigger] files[i])@,
        (#[trigger] files[j])@,
    ) by {
        if i < j {
            assert(crate::keyorder::key_lt(files[i].meta.key_max@, files[j].meta.key_min@));
        } else {
            assert(crate::keyorder::key_lt(files[j].meta.key_max@, files[i].meta.key_min@));
        }
    }
}

/// The version that readers see. Installing a new version replaces it; a
/// reader that holds the old one keeps it.
#[derive(Debug)]
pub struct VersionSet {
    current: Arc<Version>,
}

impl View for VersionSet {
    type V = Version;

    closed spec fn view(&self) -> Version {
        *self.current
    }
}

impl VersionSet {
    /// Starts with `initial`.
    pub fn new(initial: Version) -> (r: Self)
        ensures
            r@ == initial,
    {
        VersionSet { current: Arc::new(initial) }
    }

    /// The current version; the handle outlives later installs.
    pub fn current(&self) -> (r: Arc<Version>)
        ensures
            *r == self@,
    {
        self.current.clone()
    }

    /// Makes `version` the current one.
    pub fn install(&mut self, version: Version)
        ensures
            final(self)@ == version,
    {
        self.current = Arc::new(version);
    }

    /// The snapshot of the current version.
    pub fn snapshot_id(&self) -> (r: i64)
        ensures
            r == self@.snapshot_id,
    {
        self.current.snapshot_id
    }
}

/// The size of no files is 0, and one more file adds its own size, whatever
/// its level, its place in the list or its deletions.
pub proof fn law_each_file_adds_its_size(files: Seq<DataFileMeta>, f: DataFileMeta)
    ensures
        total_size(Seq::empty()) == 0,
        total_size(files.push(f)) == total_size(files) + f.meta.file_size,
{
    assert(files.push(f).drop_last() =~= files);
}

/// The size of files is the sum of their sizes alone.
pub proof fn law_total_size_is_the_sum_of_sizes(files: Seq<DataFileMeta>)
    ensures
        total_size(files) == files.map_values(
            |f: DataFileMeta| f.meta.file_size as int,
        ).fold_left(0int, |sum: int, size: int| sum + size),
    decreases files.len(),
{
    let size_of = |f: DataFileMeta| f.meta.file_size as int;
    let sizes = files.map_values(size_of);
    if files.len() > 0 {
        law_total_size_is_the_sum_of_sizes(files.drop_last());
        assert(sizes.drop_last() =~= files.drop_last().map_values(size_of));
        assert(sizes.last() == files.last().meta.file_size);
    }
}

/// The files of a level are those that the version lists for it; a level that
/// it does not list has none.
pub proof fn law_levels_hold_what_is_listed(version: &Version, level: u8)
    ensures
        version.levels@.contains_key(level) ==> version.files(level as int)
            == version.levels@[level]@,
        !version.levels@.contains_key(level) ==> version.files(level as int).len() == 0,
{
}

/// Every level adds its own files to the count.
pub proof fn law_file_count_adds_up_the_levels(version: &Version, level: int)
    requires
        level >= 0,
    ensures
        version.count_below(0) == 0,
        version.count_below(level + 1) == version.count_below(level) + version.files(level).len(),
{
}

/// The view of a file shows its path, its metadata and its deletion vector,
/// each under its own name.
pub proof fn law_file_view_shows_every_field(f: DataFileMeta)
    ensures
        f@.path == f.path@,
        f@.meta == f.meta@,
        f@.dv_path is Some <==> f.dv_path is Some,
        f.dv_path is Some ==> f@.dv_path->0 == f.dv_path->0@,
        f@.dv_offset == f.dv_offset,
        f@.dv_length == f.dv_length,
{
}

/// A row of files lists each file that stands in it, and no other.
pub proof fn law_files_in_a_row_are_listed(files: Seq<DataFileMeta>, f: DataFileView, i: int)
    requires
        0 <= i < files.len(),
    ensures
        lists(files, files[i]@),
        lists(files, f) ==> exists|k: int| 0 <= k < files.len() && (#[trigger] files[k])@ == f,
{
}

/// In a version in order, two files with one path are one file in one level.
pub proof fn law_a_path_names_one_file(version: &Version, a: int, b: int, i: int, j: int)
    requires
        version.wf(),
        0 <= i < version.files(a).len(),
        0 <= j < version.files(b).len(),
        version.files(a)[i].path@ == version.files(b)[j].path@,
    ensures
        a == b,
        version.files(a)[i]@ == version.files(b)[j]@,
{
    assert(lists(version.files(a), version.files(a)[i]@));
    assert(lists(version.files(b), version.files(b)[j]@));
}

/// Files that are apart have no key in common.
pub proof fn law_files_apart_share_no_key(f: DataFileView, g: DataFileView, key: Seq<u8>)
    requires
        apart(f, g),
        crate::keyorder::key_le(f.meta.key_min, key),
        crate::keyorder::key_le(key, f.meta.key_max),
    ensures
        !(crate::keyorder::key_le(g.meta.key_min, key) && crate::keyorder::key_le(
            key,
            g.meta.key_max,
        )),
{
    if crate::keyorder::key_le(g.meta.key_min, key) && crate::keyorder::key_le(
        key,
        g.meta.key_max,
    ) {
        crate::keyorder::lemma_key_le_transitive(g.meta.key_min, key, f.meta.key_max);
        crate::keyorder::lemma_key_le_transitive(f.meta.key_min, key, g.meta.key_max);
        crate::keyorder::lemma_key_order_total(g.meta.key_min, f.meta.key_max);
        crate::keyorder::lemma_key_order_total(f.meta.key_min, g.meta.key_max);
    }
}

/// Files without a common key are apart.
pub proof fn law_files_without_a_common_key_are_apart(f: DataFileView, g: DataFileView)
    requires
        crate::keyorder::key_le(f.meta.key_min, f.meta.key_max),
        crate::keyorder::key_le(g.meta.key_min, g.meta.key_max),
        forall|key: Seq<u8>|
            crate::keyorder::key_le(f.meta.key_min, key) && #[trigger] crate::keyorder::key_le(
                key,
                f.meta.key_max,
            ) ==> !(crate::keyorder::key_le(g.meta.key_min, key) && crate::keyorder::key_le(
                key,
                g.meta.key_max,
            )),
    ensures
        apart(f, g),
{
    crate::keyorder::lemma_key_order_total(g.meta.key_min, f.meta.key_max);
    crate::keyorder::lemma_key_order_total(f.meta.key_min, g.meta.key_max);
    crate::keyorder::lemma_key_order_total(f.meta.key_min, g.meta.key_min);
    if !apart(f, g) {
        if crate::keyorder::key_le(f.meta.key_min, g.meta.key_min) {
            assert(crate::keyorder::key_le(g.meta.key_min, f.meta.key_max));
        } else {
            assert(crate::keyorder::key_le(f.meta.key_min, f.meta.key_max));
        }
    }
}

/// A lookup in a level whose files follow each other without overlap finds the
/// file whose range the key lies in, the ends of the range included, and finds
/// it alone.
pub proof fn law_lookup_reaches_every_key(
    files: Seq<DataFileMeta>,
    key: Seq<u8>,
    i: int,
    found: int,
)
    requires
        forall|k: int|
            0 <= k < files.len() ==> crate::keyorder::key_le(
                (#[trigger] files[k]).meta.key_min@,
                files[k].meta.key_max@,
            ),
        forall|k: int, m: int|
            0 <= k < m < files.len() ==> crate::keyorder::key_lt(
                (#[trigger] files[k]).meta.key_max@,
                (#[trigger] files[m]).meta.key_min@,
            ),
        0 <= i < files.len(),
        crate::keyorder::key_le(files[i].meta.key_min@, key),
        crate::keyorder::key_le(key, files[i].meta.key_max@),
    ensures
        sorted_by_key_min(files),
        covers(files[i], key),
        last_not_behind(files, key, i),
        last_not_behind(files, key, found) ==> found == i,
{
    assert(non_overlapping(files));
    law_lookup_finds_the_covering_file(files, key, i);
    if last_not_behind(files, key, found) {
        if found < i {
            assert(!crate::keyorder::key_le(files[i].meta.key_min@, key));
        } else if found > i {
            assert(!crate::keyorder::key_le(files[found].meta.key_min@, key));
        }
    }
}

/// A file covers the keys from its smallest to its largest and no others.
pub proof fn law_a_file_covers_its_range(f: DataFileMeta, key: Seq<u8>)
    ensures
        covers(f, f.meta.key_min@) && covers(f, f.meta.key_max@) <==> crate::keyorder::key_le(
            f.meta.key_min@,
            f.meta.key_max@,
        ),
        covers(f, key) ==> !crate::keyorder::key_lt(key, f.meta.key_min@)
            && !crate::keyorder::key_lt(f.meta.key_max@, key),
        !covers(f, key) ==> crate::keyorder::key_lt(key, f.meta.key_min@)
            || crate::keyorder::key_lt(f.meta.key_max@, key),
{
    crate::keyorder::lemma_key_order_total(f.meta.key_min@, key);
    crate::keyorder::lemma_key_order_total(key, f.meta.key_max@);
}

} // verus!
