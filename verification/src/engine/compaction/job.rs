//! One compaction: which files it reads, what it adds and removes.
//!
//! A compaction of a level reads all its files and every file of the level
//! below whose key range meets theirs, and writes one file in their place.
//! That keeps the files of each deeper level free of overlaps.

use std::collections::HashSet;

use vstd::prelude::*;
use vstd::string::*;

use crate::engine::compaction::picker::{pick_compaction, CompactionPick};
use crate::engine::config::EngineConfig;
use crate::engine::data_file::relative_data_path;
use crate::engine::rowspan::{new_file_meta, span_of, RowKey};
use crate::iceberg::deletion_vector::DeletionVector;
use crate::iceberg::snapshot::{IcebergDataFile, SnapshotTransaction};
use crate::iceberg::version::{DataFileMeta, DataFileView, Version};
use crate::keyorder::{is_less, is_less_or_equal};
use crate::paths::join;
use crate::text::{dec_i64, dec_u64, joined, show_number, show_text};
use crate::types::error::{ErrorView, MeruError, Result};
use crate::types::level::{copy_bytes, Level, MetaView};

verus! {

broadcast use vstd::std_specs::hash::group_hash_axioms;

/// Whether `lo` is the smallest of the files' smallest keys.
pub open spec fn is_union_min(files: Seq<DataFileMeta>, lo: Seq<u8>) -> bool {
    &&& exists|i: int| 0 <= i < files.len() && (#[trigger] files[i]).meta.key_min@ == lo
    &&& forall|i: int|
        0 <= i < files.len() ==> crate::keyorder::key_le(
            lo,
            (#[trigger] files[i]).meta.key_min@,
        )
}

/// Whether some file has no upper bound: an empty largest key.
pub open spec fn unbounded(files: Seq<DataFileMeta>) -> bool {
    exists|i: int| 0 <= i < files.len() && (#[trigger] files[i]).meta.key_max@.len() == 0
}

/// Whether `hi` is the largest of the files' largest keys, or empty when one
/// of them has no upper bound.
pub open spec fn is_union_max(files: Seq<DataFileMeta>, hi: Seq<u8>) -> bool {
    if unbounded(files) {
        hi.len() == 0
    } else {
        &&& exists|i: int| 0 <= i < files.len() && (#[trigger] files[i]).meta.key_max@ == hi
        &&& forall|i: int|
            0 <= i < files.len() ==> crate::keyorder::key_le(
                (#[trigger] files[i]).meta.key_max@,
                hi,
            )
    }
}

/// The key range that a set of files spans: nothing for no files. An empty
/// upper end means that there is no upper bound.
pub fn compute_union_range(files: &[DataFileMeta]) -> (r: (Option<Vec<u8>>, Option<Vec<u8>>))
    ensures
        files@.len() == 0 ==> r.0 is None && r.1 is None,
        files@.len() > 0 ==> {
            &&& r.0 matches Some(lo) && is_union_min(files@, lo@)
            &&& r.1 matches Some(hi) && is_union_max(files@, hi@)
        },
{
    if files.len() == 0 {
        return (None, None);
    }
    let mut lo: usize = 0;
    let mut hi: usize = 0;
    let mut i: usize = 1;
    let mut open_end: bool = files[0].meta.key_max.len() == 0;
    while i < files.len()
        invariant
            1 <= i <= files@.len(),
            lo < i,
            hi < i,
            open_end == exists|k: int|
                0 <= k < i && (#[trigger] files@[k]).meta.key_max@.len() == 0,
            forall|k: int|
                0 <= k < i ==> crate::keyorder::key_le(
                    files@[lo as int].meta.key_min@,
                    (#[trigger] files@[k]).meta.key_min@,
                ),
            forall|k: int|
                0 <= k < i ==> crate::keyorder::key_le(
                    (#[trigger] files@[k]).meta.key_max@,
                    files@[hi as int].meta.key_max@,
                ),
        decreases files@.len() - i,
    {
        let ghost was_open = open_end;
        if is_less(files[i].meta.key_min.as_slice(), files[lo].meta.key_min.as_slice()) {
            proof {
                assert forall|k: int| 0 <= k < i + 1 implies crate::keyorder::key_le(
                    files@[i as int].meta.key_min@,
                    (#[trigger] files@[k]).meta.key_min@,
                ) by {
                    if k < i {
                        crate::keyorder::lemma_key_le_transitive(
                            files@[i as int].meta.key_min@,
                            files@[lo as int].meta.key_min@,
                            files@[k].meta.key_min@,
                        );
                    }
                }
            }
            lo = i;
        } else {
            proof {
                crate::keyorder::lemma_key_order_total(
                    files@[lo as int].meta.key_min@,
                    files@[i as int].meta.key_min@,
                );
            }
        }
        if is_less(files[hi].meta.key_max.as_slice(), files[i].meta.key_max.as_slice()) {
            proof {
                assert forall|k: int| 0 <= k < i + 1 implies crate::keyorder::key_le(
                    (#[trigger] files@[k]).meta.key_max@,
                    files@[i as int].meta.key_max@,
                ) by {
                    if k < i {
                        crate::keyorder::lemma_key_le_transitive(
                            files@[k].meta.key_max@,
                            files@[hi as int].meta.key_max@,
                            files@[i as int].meta.key_max@,
                        );
                    }
                }
            }
            hi = i;
        } else {
            proof {
                crate::keyorder::lemma_key_order_total(
                    files@[i as int].meta.key_max@,
                    files@[hi as int].meta.key_max@,
                );
            }
        }
        if files[i].meta.key_max.len() == 0 {
            open_end = true;
        }
        i = i + 1;
        proof {
            if was_open {
                let k = choose|k: int|
                    0 <= k < i - 1 && (#[trigger] files@[k]).meta.key_max@.len() == 0;
                assert(files@[k].meta.key_max@.len() == 0);
            }
        }
    }
    let union_max = if open_end {
        Vec::new()
    } else {
        copy_bytes(&files[hi].meta.key_max)
    };
    (Some(copy_bytes(&files[lo].meta.key_min)), Some(union_max))
}

/// Whether a file's key range meets `[lo, hi]`, where an empty upper end has
/// no bound.
pub open spec fn meets(f: DataFileMeta, lo: Seq<u8>, hi: Seq<u8>) -> bool {
    &&& hi.len() == 0 || crate::keyorder::key_le(f.meta.key_min@, hi)
    &&& f.meta.key_max@.len() == 0 || crate::keyorder::key_le(lo, f.meta.key_max@)
}

/// The files whose key range meets `[lo, hi]`, in order.
pub open spec fn meeting(files: Seq<DataFileMeta>, lo: Seq<u8>, hi: Seq<u8>) -> Seq<DataFileView>
    decreases files.len(),
{
    if files.len() == 0 {
        Seq::empty()
    } else if meets(files.last(), lo, hi) {
        meeting(files.drop_last(), lo, hi).push(files.last()@)
    } else {
        meeting(files.drop_last(), lo, hi)
    }
}

/// The views of a row of files.
pub open spec fn views(files: Seq<DataFileMeta>) -> Seq<DataFileView> {
    Seq::new(files.len(), |i: int| files[i]@)
}

/// The files whose key range meets `[lo, hi]`.
pub fn overlapping(files: &[DataFileMeta], lo: &[u8], hi: &[u8]) -> (r: Vec<DataFileMeta>)
    ensures
        views(r@) == meeting(files@, lo@, hi@),
{
    let mut r: Vec<DataFileMeta> = Vec::new();
    let mut i: usize = 0;
    assert(views(r@) =~= Seq::empty());
    while i < files.len()
        invariant
            i <= files@.len(),
            views(r@) == meeting(files@.take(i as int), lo@, hi@),
        decreases files@.len() - i,
    {
        let f: &DataFileMeta = &files[i];
        let below: bool = hi.len() == 0 || is_less_or_equal(f.meta.key_min.as_slice(), hi);
        let above: bool = f.meta.key_max.len() == 0 || is_less_or_equal(
            lo,
            f.meta.key_max.as_slice(),
        );
        let ghost before = r@;
        proof {
            assert(files@.take(i + 1).drop_last() =~= files@.take(i as int));
        }
        if below && above {
            r.push(f.clone());
            assert(views(r@) =~= views(before).push(f@));
        }
        i = i + 1;
    }
    assert(files@.take(i as int) =~= files@);
    r
}

/// Whether `key` can occur in what a compaction reads: in the range of its
/// inputs, or in a file of the output level that meets that range.
pub open spec fn key_is_read(
    output_files: Seq<DataFileMeta>,
    lo: Seq<u8>,
    hi: Seq<u8>,
    key: Seq<u8>,
) -> bool {
    ||| crate::keyorder::key_le(lo, key) && (hi.len() == 0 || crate::keyorder::key_le(key, hi))
    ||| exists|p: int|
        0 <= p < output_files.len() && meets(#[trigger] output_files[p], lo, hi)
            && crate::iceberg::version::covers(output_files[p], key)
}

/// A compaction keeps the output level free of overlaps. Take an output level
/// without overlaps and one of its files that the compaction leaves alone:
/// either every key that the compaction can write lies behind that file, or
/// every such key lies before it.
pub proof fn law_output_stays_free_of_overlaps(
    output_files: Seq<DataFileMeta>,
    lo: Seq<u8>,
    hi: Seq<u8>,
    kept: int,
)
    requires
        crate::iceberg::version::disjoint(output_files),
        forall|i: int|
            0 <= i < output_files.len() ==> (#[trigger] output_files[i]).meta.key_max@.len() > 0,
        0 <= kept < output_files.len(),
        !meets(output_files[kept], lo, hi),
    ensures
        ({
            let f = output_files[kept];
            ||| forall|key: Seq<u8>| #[trigger]
                key_is_read(output_files, lo, hi, key) ==> crate::keyorder::key_lt(
                    f.meta.key_max@,
                    key,
                )
            ||| forall|key: Seq<u8>| #[trigger]
                key_is_read(output_files, lo, hi, key) ==> crate::keyorder::key_lt(
                    key,
                    f.meta.key_min@,
                )
        }),
{
    let f = output_files[kept];
    crate::keyorder::lemma_key_order_total(f.meta.key_min@, hi);
    crate::keyorder::lemma_key_order_total(lo, f.meta.key_max@);
    if crate::keyorder::key_lt(f.meta.key_max@, lo) {
        assert forall|key: Seq<u8>| #[trigger]
            key_is_read(output_files, lo, hi, key) implies crate::keyorder::key_lt(
            f.meta.key_max@,
            key,
        ) by {
            if crate::keyorder::key_le(lo, key) && (hi.len() == 0 || crate::keyorder::key_le(
                key,
                hi,
            )) {
                crate::keyorder::lemma_key_le_transitive(f.meta.key_max@, lo, key);
                crate::keyorder::lemma_key_lt_asymmetric(f.meta.key_max@, lo);
            } else {
                let p = choose|p: int|
                    0 <= p < output_files.len() && meets(#[trigger] output_files[p], lo, hi)
                        && crate::iceberg::version::covers(output_files[p], key);
                let g = output_files[p];
                assert(p != kept);
                assert(crate::iceberg::version::apart(g@, f@));
                if crate::keyorder::key_lt(g.meta.key_max@, f.meta.key_min@) {
                    // g ends before f begins, so it ends before lo: it meets nothing.
                    crate::keyorder::lemma_key_le_transitive(
                        lo,
                        g.meta.key_max@,
                        f.meta.key_min@,
                    );
                    crate::keyorder::lemma_key_le_transitive(
                        lo,
                        f.meta.key_min@,
                        f.meta.key_max@,
                    );
                    crate::keyorder::lemma_key_order_total(lo, f.meta.key_max@);
                    assert(false);
                } else {
                    crate::keyorder::lemma_key_le_transitive(
                        f.meta.key_max@,
                        g.meta.key_min@,
                        key,
                    );
                    crate::keyorder::lemma_key_lt_asymmetric(f.meta.key_max@, g.meta.key_min@);
                }
            }
        }
    } else {
        assert(crate::keyorder::key_lt(hi, f.meta.key_min@));
        assert forall|key: Seq<u8>| #[trigger]
            key_is_read(output_files, lo, hi, key) implies crate::keyorder::key_lt(
            key,
            f.meta.key_min@,
        ) by {
            if crate::keyorder::key_le(lo, key) && (hi.len() == 0 || crate::keyorder::key_le(
                key,
                hi,
            )) {
                crate::keyorder::lemma_key_le_transitive(key, hi, f.meta.key_min@);
                crate::keyorder::lemma_key_lt_asymmetric(hi, f.meta.key_min@);
            } else {
                let p = choose|p: int|
                    0 <= p < output_files.len() && meets(#[trigger] output_files[p], lo, hi)
                        && crate::iceberg::version::covers(output_files[p], key);
                let g = output_files[p];
                assert(p != kept);
                assert(crate::iceberg::version::apart(g@, f@));
                if crate::keyorder::key_lt(f.meta.key_max@, g.meta.key_min@) {
                    // g begins after f ends, so it begins after hi: it meets nothing.
                    crate::keyorder::lemma_key_le_transitive(
                        f.meta.key_min@,
                        f.meta.key_max@,
                        g.meta.key_min@,
                    );
                    crate::keyorder::lemma_key_le_transitive(
                        hi,
                        f.meta.key_min@,
                        g.meta.key_min@,
                    );
                    crate::keyorder::lemma_key_lt_asymmetric(hi, f.meta.key_min@);
                    crate::keyorder::lemma_key_order_total(g.meta.key_min@, hi);
                    assert(false);
                } else {
                    crate::keyorder::lemma_key_le_transitive(
                        key,
                        g.meta.key_max@,
                        f.meta.key_min@,
                    );
                    crate::keyorder::lemma_key_lt_asymmetric(g.meta.key_max@, f.meta.key_min@);
                }
            }
        }
    }
}

/// The file that a compaction writes meets no file that it leaves alone in
/// the output level: it ends before such a file or begins behind it.
pub proof fn law_output_file_meets_no_kept_file(
    output_files: Seq<DataFileMeta>,
    lo: Seq<u8>,
    hi: Seq<u8>,
    kept: int,
    rows: Seq<RowKey>,
    key_min: Seq<u8>,
    key_max: Seq<u8>,
)
    requires
        crate::iceberg::version::disjoint(output_files),
        forall|i: int|
            0 <= i < output_files.len() ==> (#[trigger] output_files[i]).meta.key_max@.len() > 0,
        0 <= kept < output_files.len(),
        !meets(output_files[kept], lo, hi),
        rows.len() > 0,
        forall|i: int|
            0 <= i < rows.len() ==> key_is_read(
                output_files,
                lo,
                hi,
                (#[trigger] rows[i]).user_key@,
            ),
        crate::engine::rowspan::spans_keys(rows, key_min, key_max),
    ensures
        crate::keyorder::key_lt(output_files[kept].meta.key_max@, key_min)
            || crate::keyorder::key_lt(key_max, output_files[kept].meta.key_min@),
{
    law_output_stays_free_of_overlaps(output_files, lo, hi, kept);
    let a = choose|i: int| 0 <= i < rows.len() && (#[trigger] rows[i]).user_key@ == key_min;
    let b = choose|i: int| 0 <= i < rows.len() && (#[trigger] rows[i]).user_key@ == key_max;
    assert(key_is_read(output_files, lo, hi, rows[a].user_key@));
    assert(key_is_read(output_files, lo, hi, rows[b].user_key@));
}

/// Copies of a row of files.
fn copy_files(files: &[DataFileMeta]) -> (r: Vec<DataFileMeta>)
    ensures
        views(r@) == views(files@),
{
    let mut r: Vec<DataFileMeta> = Vec::new();
    let mut i: usize = 0;
    while i < files.len()
        invariant
            i <= files@.len(),
            r@.len() == i,
            forall|k: int| 0 <= k < i ==> (#[trigger] r@[k])@ == files@[k]@,
        decreases files@.len() - i,
    {
        r.push(files[i].clone());
        i = i + 1;
    }
    assert(views(r@) =~= views(files@));
    r
}

/// The files that a compaction reads, and then removes.
#[derive(Debug)]
pub struct CompactionPlan {
    /// The level that is read.
    pub input_level: Level,
    /// The level that is written.
    pub output_level: Level,
    /// All files of the input level.
    pub inputs: Vec<DataFileMeta>,
    /// The files of the output level whose key ranges meet the inputs'.
    pub overlaps: Vec<DataFileMeta>,
}

impl CompactionPlan {
    /// Whether this is the plan for moving a level of `version` down.
    pub open spec fn is_for(&self, version: &Version, input: Level, output: Level) -> bool {
        &&& self.input_level == input
        &&& self.output_level == output
        &&& views(self.inputs@) == views(version.files(input.0 as int))
        &&& exists|lo: Seq<u8>, hi: Seq<u8>|
            {
                &&& is_union_min(version.files(input.0 as int), lo)
                &&& is_union_max(version.files(input.0 as int), hi)
                &&& views(self.overlaps@) == #[trigger] meeting(
                    version.files(output.0 as int),
                    lo,
                    hi,
                )
            }
    }
}

/// Plans a picked compaction against the version that it was picked from.
/// `None` when the input level holds no file.
pub fn plan_compaction(version: &Version, pick: &CompactionPick) -> (r: Option<CompactionPlan>)
    ensures
        match r {
            Some(plan) => plan.is_for(version, pick.input_level, pick.output_level)
                && version.files(pick.input_level.0 as int).len() > 0,
            None => version.files(pick.input_level.0 as int).len() == 0,
        },
{
    let files = version.files_at(pick.input_level);
    if files.len() == 0 {
        return None;
    }
    let inputs = copy_files(files);
    let overlaps = match compute_union_range(files) {
        (Some(lo), Some(hi)) => {
            let found = overlapping(
                version.files_at(pick.output_level),
                lo.as_slice(),
                hi.as_slice(),
            );
            assert(views(found@) == meeting(
                version.files(pick.output_level.0 as int),
                lo@,
                hi@,
            ));
            found
        },
        _ => Vec::new(),
    };
    Some(
        CompactionPlan {
            input_level: pick.input_level,
            output_level: pick.output_level,
            inputs,
            overlaps,
        },
    )
}

/// Marks the levels of a pick as busy.
fn reserve(busy: &mut HashSet<u8>, input: Level, output: Level)
    ensures
        final(busy)@ == old(busy)@.insert(input.0).insert(output.0),
{
    busy.insert(input.0);
    busy.insert(output.0);
}

/// Frees the levels of a finished compaction, whether it worked out or not.
pub fn release(busy: &mut HashSet<u8>, input: Level, output: Level)
    ensures
        final(busy)@ == old(busy)@.remove(input.0).remove(output.0),
{
    busy.remove(&input.0);
    busy.remove(&output.0);
}

/// Picks the next compaction and reserves its levels, so that no other worker
/// touches them until [`release`].
pub fn reserve_next_compaction(
    version: &Version,
    config: &EngineConfig,
    busy: &mut HashSet<u8>,
) -> (r: Option<CompactionPick>)
    requires
        config.level_target_bytes@.len() <= 254,
        forall|l: int|
            1 <= l <= config.level_target_bytes@.len()
                && crate::engine::compaction::picker::level_is_free(old(busy)@, l)
                ==> crate::iceberg::version::total_size(#[trigger] version.files(l)) <= u64::MAX,
    ensures
        match r {
            Some(p) => {
                &&& crate::engine::compaction::picker::is_pick(version, config, old(busy)@, p)
                &&& final(busy)@ == old(busy)@.insert(p.input_level.0).insert(p.output_level.0)
                &&& final(busy)@.remove(p.input_level.0).remove(p.output_level.0) == old(busy)@
            },
            None => {
                &&& crate::engine::compaction::picker::nothing_to_pick(
                    version,
                    config,
                    old(busy)@,
                )
                &&& final(busy)@ == old(busy)@
            },
        },
{
    match pick_compaction(version, config, busy) {
        Some(p) => {
            reserve(busy, p.input_level, p.output_level);
            assert(busy@.remove(p.input_level.0).remove(p.output_level.0) =~= old(busy)@);
            Some(p)
        },
        None => None,
    }
}

/// Two compactions that run at the same time never touch the same level: what
/// is picked while the levels of another compaction are reserved has neither
/// of them as its input or output.
pub proof fn law_running_compactions_share_no_level(
    version: &Version,
    later_version: &Version,
    config: &EngineConfig,
    busy: Set<u8>,
    busy_later: Set<u8>,
    first: CompactionPick,
    second: CompactionPick,
)
    requires
        crate::engine::compaction::picker::is_pick(version, config, busy, first),
        busy.insert(first.input_level.0).insert(first.output_level.0).subset_of(busy_later),
        crate::engine::compaction::picker::is_pick(later_version, config, busy_later, second),
    ensures
        first.input_level.0 != second.input_level.0,
        first.input_level.0 != second.output_level.0,
        first.output_level.0 != second.input_level.0,
        first.output_level.0 != second.output_level.0,
{
    let reserved = busy.insert(first.input_level.0).insert(first.output_level.0);
    assert(reserved.contains(first.input_level.0));
    assert(reserved.contains(first.output_level.0));
    assert(busy_later.contains(first.input_level.0));
    assert(busy_later.contains(first.output_level.0));
}

/// The paths of a row of files.
pub open spec fn file_paths(files: Seq<DataFileMeta>) -> Seq<Seq<char>> {
    Seq::new(files.len(), |i: int| files[i].path@)
}

/// The file that a compaction adds: the writer's bytes under a fresh name.
/// `None` without rows. A writer that gives no bytes for some rows failed.
pub fn compaction_output(
    output_level: Level,
    file_id: &str,
    rows: &Vec<RowKey>,
    written_bytes: u64,
) -> (r: Result<Option<IcebergDataFile>>)
    ensures
        match r {
            Ok(None) => rows@.len() == 0,
            Ok(Some(f)) => {
                &&& rows@.len() > 0
                &&& written_bytes > 0
                &&& f.path@ == crate::engine::data_file::data_path(output_level, file_id@)
                &&& f.file_size == written_bytes
                &&& f.num_rows == rows@.len()
                &&& crate::engine::rowspan::spans_seqs(rows@, f.meta.seq_min, f.meta.seq_max)
                &&& crate::engine::rowspan::spans_keys(rows@, f.meta.key_min@, f.meta.key_max@)
                &&& f.meta@ == (MetaView {
                    level: output_level,
                    num_rows: rows@.len() as u64,
                    file_size: written_bytes,
                    dv_path: None,
                    dv_offset: None,
                    dv_length: None,
                    format: None,
                    column_stats: None,
                    ..f.meta@
                })
            },
            Err(e) => rows@.len() > 0 && written_bytes == 0 && e@ == ErrorView::Parquet(
                "writer returned empty bytes for non-empty row set"@,
            ),
        },
{
    if rows.len() == 0 {
        return Ok(None);
    }
    if written_bytes == 0 {
        return Err(
            MeruError::Parquet("writer returned empty bytes for non-empty row set".to_owned()),
        );
    }
    let span = span_of(rows);
    let num_rows: u64 = span.num_rows;
    Ok(
        Some(
            IcebergDataFile {
                path: relative_data_path(output_level, file_id),
                file_size: written_bytes,
                num_rows,
                meta: new_file_meta(output_level, span, written_bytes),
            },
        ),
    )
}

/// Whether `props` says which compaction made a snapshot, and nothing else.
pub open spec fn compaction_props(props: Map<Seq<char>, String>, input: Level, output: Level) -> bool {
    &&& props.dom() == set![
        "merutable.job"@,
        "merutable.input_level"@,
        "merutable.output_level"@,
    ]
    &&& props["merutable.job"@]@ == "compaction"@
    &&& props["merutable.input_level"@]@ == crate::text::dec_nat(input.0 as nat)
    &&& props["merutable.output_level"@]@ == crate::text::dec_nat(output.0 as nat)
}

/// An optional file as a row of files.
pub open spec fn listed(f: Option<IcebergDataFile>) -> Seq<IcebergDataFile> {
    match f {
        Some(x) => seq![x],
        None => Seq::empty(),
    }
}

/// The change that a compaction commits: its output, if it has any, takes the
/// place of every file that it read.
pub fn compaction_transaction(plan: &CompactionPlan, output: Option<IcebergDataFile>) -> (r:
    SnapshotTransaction)
    ensures
        r.adds@ == listed(output),
        crate::text::texts(r.removes@) == file_paths(plan.inputs@)
            + file_paths(plan.overlaps@),
        r.dvs@ == Map::<Seq<char>, DeletionVector>::empty(),
        compaction_props(r.props@, plan.input_level, plan.output_level),
{
    let mut txn = SnapshotTransaction::new();
    let ghost wanted = listed(output);
    match output {
        Some(f) => {
            txn.add_file(f);
        },
        None => {},
    }
    assert(txn.adds@ =~= wanted);
    remove_all(&mut txn, &plan.inputs);
    remove_all(&mut txn, &plan.overlaps);
    assert(crate::text::texts(txn.removes@) =~= file_paths(plan.inputs@)
        + file_paths(plan.overlaps@));
    proof {
        reveal_strlit("merutable.job");
        reveal_strlit("merutable.input_level");
        reveal_strlit("merutable.output_level");
        assert("merutable.job"@.len() == 13);
        assert("merutable.input_level"@.len() == 21);
        assert("merutable.output_level"@.len() == 22);
    }
    txn.set_prop("merutable.job", "compaction");
    txn.set_prop("merutable.input_level", dec_u64(plan.input_level.0 as u64).as_str());
    txn.set_prop("merutable.output_level", dec_u64(plan.output_level.0 as u64).as_str());
    assert(txn.props@.dom() =~= set![
        "merutable.job"@,
        "merutable.input_level"@,
        "merutable.output_level"@,
    ]);
    txn
}

/// Removes each of the files.
fn remove_all(txn: &mut SnapshotTransaction, files: &Vec<DataFileMeta>)
    ensures
        crate::text::texts(final(txn).removes@)
            == crate::text::texts(old(txn).removes@) + file_paths(files@),
        final(txn).adds == old(txn).adds,
        final(txn).dvs == old(txn).dvs,
        final(txn).props == old(txn).props,
{
    let ghost before = txn.removes@;
    let mut i: usize = 0;
    assert(file_paths(files@.take(0)) =~= Seq::empty());
    while i < files.len()
        invariant
            i <= files@.len(),
            crate::text::texts(txn.removes@)
                =~= crate::text::texts(before) + file_paths(
                files@.take(i as int),
            ),
            txn.adds == old(txn).adds,
            txn.dvs == old(txn).dvs,
            txn.props == old(txn).props,
        decreases files@.len() - i,
    {
        let ghost was = txn.removes@;
        txn.remove_file(files[i].path.clone());
        proof {
            let t = crate::text::texts(was);
            assert(crate::text::texts(txn.removes@) =~= t.push(
                files@[i as int].path@,
            ));
            assert(file_paths(files@.take(i + 1)) =~= file_paths(files@.take(i as int)).push(
                files@[i as int].path@,
            ));
        }
        i = i + 1;
    }
    assert(files@.take(i as int) =~= files@);
}

/// Whether a plan lists a file: the compaction reads it.
pub open spec fn planned(plan: &CompactionPlan, f: DataFileView) -> bool {
    crate::iceberg::version::lists(plan.inputs@, f) || crate::iceberg::version::lists(
        plan.overlaps@,
        f,
    )
}

/// Whether no file of a version has the path.
pub open spec fn is_new_path(version: &Version, path: Seq<char>) -> bool {
    forall|level: int, f: DataFileView| #[trigger]
        crate::iceberg::version::lists(version.files(level), f) ==> f.path != path
}

/// Whether a key lies in the range of a file that the plan lists.
pub open spec fn key_is_planned(plan: &CompactionPlan, key: Seq<u8>) -> bool {
    ||| exists|i: int|
        0 <= i < plan.inputs@.len() && crate::iceberg::version::covers(
            #[trigger] plan.inputs@[i],
            key,
        )
    ||| exists|i: int|
        0 <= i < plan.overlaps@.len() && crate::iceberg::version::covers(
            #[trigger] plan.overlaps@[i],
            key,
        )
}

/// Whether a file is among those that meet a range.
pub open spec fn is_meeting(
    files: Seq<DataFileMeta>,
    lo: Seq<u8>,
    hi: Seq<u8>,
    f: DataFileView,
) -> bool {
    exists|i: int| 0 <= i < files.len() && meets(#[trigger] files[i], lo, hi) && files[i]@ == f
}

/// What `meeting` lists are exactly the files that meet the range.
proof fn lemma_meeting_lists(files: Seq<DataFileMeta>, lo: Seq<u8>, hi: Seq<u8>)
    ensures
        forall|i: int|
            0 <= i < files.len() && meets(#[trigger] files[i], lo, hi) ==> meeting(
                files,
                lo,
                hi,
            ).contains(files[i]@),
        forall|k: int|
            0 <= k < meeting(files, lo, hi).len() ==> is_meeting(
                files,
                lo,
                hi,
                #[trigger] meeting(files, lo, hi)[k],
            ),
    decreases files.len(),
{
    if files.len() > 0 {
        let rest = files.drop_last();
        let n = files.len() - 1;
        lemma_meeting_lists(rest, lo, hi);
        let m = meeting(files, lo, hi);
        let earlier = meeting(rest, lo, hi);
        assert forall|i: int| 0 <= i < files.len() && meets(
            #[trigger] files[i],
            lo,
            hi,
        ) implies m.contains(files[i]@) by {
            if i < n {
                assert(rest[i] == files[i]);
                let k = choose|k: int| 0 <= k < earlier.len() && earlier[k] == files[i]@;
                assert(m[k] == files[i]@);
            } else {
                assert(m[m.len() - 1] == files[i]@);
            }
        }
        assert forall|k: int| 0 <= k < m.len() implies is_meeting(
            files,
            lo,
            hi,
            #[trigger] m[k],
        ) by {
            if k < earlier.len() {
                assert(m[k] == earlier[k]);
                let i = choose|i: int|
                    0 <= i < rest.len() && meets(#[trigger] rest[i], lo, hi) && rest[i]@
                        == earlier[k];
                assert(files[i] == rest[i]);
            } else {
                assert(meets(files[n], lo, hi));
            }
        }
    }
}

/// What a compaction leaves. Let a plan for moving one level into another be
/// committed, with an output whose rows all come from the files that the plan
/// lists. Then the new version has exactly the files that the plan does not
/// list, and the output in the output level. No two files of that level share
/// a key, if none did before, and a path still names one file, if that of the
/// output is new.
pub proof fn law_compaction_replaces_what_it_read(
    before: &Version,
    after: &Version,
    plan: &CompactionPlan,
    txn: SnapshotTransaction,
    output: Option<IcebergDataFile>,
    rows: Seq<RowKey>,
)
    requires
        plan.input_level != plan.output_level,
        plan.is_for(before, plan.input_level, plan.output_level),
        before.wf(),
        crate::iceberg::version::disjoint(before.files(plan.output_level.0 as int)),
        forall|i: int|
            0 <= i < before.files(plan.output_level.0 as int).len() ==> (
            #[trigger] before.files(plan.output_level.0 as int)[i]).meta.key_max@.len() > 0,
        forall|i: int|
            0 <= i < rows.len() ==> key_is_planned(plan, (#[trigger] rows[i]).user_key@),
        output matches Some(f) ==> {
            &&& rows.len() > 0
            &&& crate::engine::rowspan::spans_keys(rows, f.meta.key_min@, f.meta.key_max@)
            &&& f.meta.level == plan.output_level
        },
        txn.adds@ == listed(output),
        crate::text::texts(txn.removes@) == file_paths(plan.inputs@) + file_paths(plan.overlaps@),
        txn.leads_to(before, after),
    ensures
        forall|level: int, f: DataFileView| #[trigger]
            crate::iceberg::version::lists(after.files(level), f) <==> {
                ||| crate::iceberg::version::lists(before.files(level), f) && !planned(plan, f)
                ||| output is Some && level == plan.output_level.0
                    && f == crate::iceberg::snapshot::as_added(output->0)
            },
        forall|f: DataFileView, g: DataFileView|
            (#[trigger] crate::iceberg::version::lists(
                after.files(plan.output_level.0 as int),
                f,
            )) && (#[trigger] crate::iceberg::version::lists(
                after.files(plan.output_level.0 as int),
                g,
            )) && f != g ==> crate::iceberg::version::apart(f, g),
        (output is Some ==> is_new_path(before, output->0.path@)) ==> after.wf(),
{
    let a = plan.input_level.0 as int;
    let b = plan.output_level.0 as int;
    let in_files = before.files(a);
    let out_files = before.files(b);
    let (lo, hi) = choose|lo: Seq<u8>, hi: Seq<u8>|
        {
            &&& is_union_min(in_files, lo)
            &&& is_union_max(in_files, hi)
            &&& views(plan.overlaps@) == #[trigger] meeting(out_files, lo, hi)
        };
    // A file of the version is removed when the plan lists it.
    assert forall|level: int, f: DataFileView|
        #[trigger] crate::iceberg::version::lists(before.files(level), f) implies (
    txn.removes_path(f.path) <==> planned(plan, f)) by {
        lemma_removed_is_planned(before, plan, lo, hi, level, f);
    }
    assert forall|level: int, f: DataFileView| #[trigger]
        crate::iceberg::version::lists(after.files(level), f) <==> {
            ||| crate::iceberg::version::lists(before.files(level), f) && !planned(plan, f)
            ||| output is Some && level == plan.output_level.0
                && f == crate::iceberg::snapshot::as_added(output->0)
        } by {
        if output is Some {
            assert(txn.adds@[0] == output->0);
        }
        assert(txn.adds_at(level, f) <==> output is Some && level == b && f
            == crate::iceberg::snapshot::as_added(output->0));
    }
    assert forall|f: DataFileView, g: DataFileView|
        (#[trigger] crate::iceberg::version::lists(after.files(b), f)) && (
        #[trigger] crate::iceberg::version::lists(after.files(b), g)) && f != g implies crate::iceberg::version::apart(
        f,
        g,
    ) by {
        let kept_f = crate::iceberg::version::lists(out_files, f) && !planned(plan, f);
        let kept_g = crate::iceberg::version::lists(out_files, g) && !planned(plan, g);
        if kept_f && kept_g {
            let i = choose|i: int| 0 <= i < out_files.len() && (#[trigger] out_files[i])@ == f;
            let j = choose|j: int| 0 <= j < out_files.len() && (#[trigger] out_files[j])@ == g;
            assert(crate::iceberg::version::apart(out_files[i]@, out_files[j]@));
        } else {
            let k = if kept_f { f } else { g };
            lemma_output_is_apart(before, plan, lo, hi, output->0, rows, k);
        }
    }
}

/// The overlaps of a plan are files of the output level that meet its range,
/// and its inputs are the files of the input level.
proof fn lemma_planned_files(before: &Version, plan: &CompactionPlan, lo: Seq<u8>, hi: Seq<u8>)
    requires
        plan.is_for(before, plan.input_level, plan.output_level),
        views(plan.overlaps@) == meeting(before.files(plan.output_level.0 as int), lo, hi),
    ensures
        plan.inputs@.len() == before.files(plan.input_level.0 as int).len(),
        forall|i: int|
            0 <= i < plan.inputs@.len() ==> (#[trigger] plan.inputs@[i])@ == before.files(
                plan.input_level.0 as int,
            )[i]@,
        forall|k: int|
            0 <= k < plan.overlaps@.len() ==> is_meeting(
                before.files(plan.output_level.0 as int),
                lo,
                hi,
                (#[trigger] plan.overlaps@[k])@,
            ),
        forall|i: int|
            0 <= i < before.files(plan.output_level.0 as int).len() && meets(
                #[trigger] before.files(plan.output_level.0 as int)[i],
                lo,
                hi,
            ) ==> crate::iceberg::version::lists(
                plan.overlaps@,
                before.files(plan.output_level.0 as int)[i]@,
            ),
{
    let in_files = before.files(plan.input_level.0 as int);
    let out_files = before.files(plan.output_level.0 as int);
    lemma_meeting_lists(out_files, lo, hi);
    let m = meeting(out_files, lo, hi);
    assert(views(plan.inputs@).len() == views(in_files).len());
    assert forall|i: int| 0 <= i < plan.inputs@.len() implies (#[trigger] plan.inputs@[i])@
        == in_files[i]@ by {
        assert(views(plan.inputs@)[i] == views(in_files)[i]);
    }
    assert forall|k: int| 0 <= k < plan.overlaps@.len() implies is_meeting(
        out_files,
        lo,
        hi,
        (#[trigger] plan.overlaps@[k])@,
    ) by {
        assert(views(plan.overlaps@)[k] == m[k]);
    }
    assert forall|i: int| 0 <= i < out_files.len() && meets(
        #[trigger] out_files[i],
        lo,
        hi,
    ) implies crate::iceberg::version::lists(plan.overlaps@, out_files[i]@) by {
        assert(m.contains(out_files[i]@));
        let k = choose|k: int| 0 <= k < m.len() && m[k] == out_files[i]@;
        assert(views(plan.overlaps@)[k] == plan.overlaps@[k]@);
        assert(plan.overlaps@[k]@ == out_files[i]@);
    }
}

/// A file of the version has a path that the plan names exactly when the plan
/// lists the file.
proof fn lemma_removed_is_planned(
    before: &Version,
    plan: &CompactionPlan,
    lo: Seq<u8>,
    hi: Seq<u8>,
    level: int,
    f: DataFileView,
)
    requires
        plan.is_for(before, plan.input_level, plan.output_level),
        views(plan.overlaps@) == meeting(before.files(plan.output_level.0 as int), lo, hi),
        before.wf(),
        crate::iceberg::version::lists(before.files(level), f),
    ensures
        (file_paths(plan.inputs@) + file_paths(plan.overlaps@)).contains(f.path) <==> planned(
            plan,
            f,
        ),
{
    let a = plan.input_level.0 as int;
    let b = plan.output_level.0 as int;
    let paths = file_paths(plan.inputs@) + file_paths(plan.overlaps@);
    let n = plan.inputs@.len() as int;
    lemma_planned_files(before, plan, lo, hi);
    if paths.contains(f.path) {
        let k = choose|k: int| 0 <= k < paths.len() && paths[k] == f.path;
        if k < n {
            let g = plan.inputs@[k]@;
            assert(before.files(a)[k]@ == g);
            assert(crate::iceberg::version::lists(before.files(a), g));
            assert(g.path == f.path);
            assert(crate::iceberg::version::lists(plan.inputs@, g));
        } else {
            let g = plan.overlaps@[k - n]@;
            assert(crate::iceberg::version::lists(before.files(b), g));
            assert(g.path == f.path);
            assert(crate::iceberg::version::lists(plan.overlaps@, g));
        }
    }
    if crate::iceberg::version::lists(plan.inputs@, f) {
        let k = choose|k: int| 0 <= k < plan.inputs@.len() && (#[trigger] plan.inputs@[k])@ == f;
        assert(paths[k] == f.path);
    } else if crate::iceberg::version::lists(plan.overlaps@, f) {
        let k = choose|k: int|
            0 <= k < plan.overlaps@.len() && (#[trigger] plan.overlaps@[k])@ == f;
        assert(paths[n + k] == f.path);
    }
}

/// The output of a compaction shares no key with a file of its level that the
/// plan does not list.
proof fn lemma_output_is_apart(
    before: &Version,
    plan: &CompactionPlan,
    lo: Seq<u8>,
    hi: Seq<u8>,
    output: IcebergDataFile,
    rows: Seq<RowKey>,
    kept: DataFileView,
)
    requires
        plan.is_for(before, plan.input_level, plan.output_level),
        is_union_min(before.files(plan.input_level.0 as int), lo),
        is_union_max(before.files(plan.input_level.0 as int), hi),
        views(plan.overlaps@) == meeting(before.files(plan.output_level.0 as int), lo, hi),
        crate::iceberg::version::disjoint(before.files(plan.output_level.0 as int)),
        forall|i: int|
            0 <= i < before.files(plan.output_level.0 as int).len() ==> (
            #[trigger] before.files(plan.output_level.0 as int)[i]).meta.key_max@.len() > 0,
        rows.len() > 0,
        forall|i: int|
            0 <= i < rows.len() ==> key_is_planned(plan, (#[trigger] rows[i]).user_key@),
        crate::engine::rowspan::spans_keys(rows, output.meta.key_min@, output.meta.key_max@),
        crate::iceberg::version::lists(before.files(plan.output_level.0 as int), kept),
        !planned(plan, kept),
    ensures
        crate::iceberg::version::apart(crate::iceberg::snapshot::as_added(output), kept),
{
    let in_files = before.files(plan.input_level.0 as int);
    let out_files = before.files(plan.output_level.0 as int);
    lemma_planned_files(before, plan, lo, hi);
    let at = choose|i: int| 0 <= i < out_files.len() && (#[trigger] out_files[i])@ == kept;
    assert(!meets(out_files[at], lo, hi));
    assert forall|r: int| 0 <= r < rows.len() implies key_is_read(
        out_files,
        lo,
        hi,
        (#[trigger] rows[r]).user_key@,
    ) by {
        let key = rows[r].user_key@;
        assert(key_is_planned(plan, key));
        if exists|i: int|
            0 <= i < plan.inputs@.len() && crate::iceberg::version::covers(
                #[trigger] plan.inputs@[i],
                key,
            ) {
            let i = choose|i: int|
                0 <= i < plan.inputs@.len() && crate::iceberg::version::covers(
                    #[trigger] plan.inputs@[i],
                    key,
                );
            let f = in_files[i];
            assert(plan.inputs@[i]@ == f@);
            crate::keyorder::lemma_key_le_transitive(lo, f.meta.key_min@, key);
            if hi.len() > 0 {
                assert(!unbounded(in_files));
                crate::keyorder::lemma_key_le_transitive(key, f.meta.key_max@, hi);
            }
        } else {
            let i = choose|i: int|
                0 <= i < plan.overlaps@.len() && crate::iceberg::version::covers(
                    #[trigger] plan.overlaps@[i],
                    key,
                );
            let p = choose|p: int|
                0 <= p < out_files.len() && meets(#[trigger] out_files[p], lo, hi)
                    && out_files[p]@ == plan.overlaps@[i]@;
            assert(crate::iceberg::version::covers(out_files[p], key));
        }
    }
    law_output_file_meets_no_kept_file(
        out_files,
        lo,
        hi,
        at,
        rows,
        output.meta.key_min@,
        output.meta.key_max@,
    );
}

/// The paths on disk of files that a commit made obsolete: each data file,
/// then its Puffin file if it has one.
pub open spec fn obsolete(base: Seq<char>, files: Seq<DataFileMeta>) -> Seq<Seq<char>>
    decreases files.len(),
{
    if files.len() == 0 {
        Seq::empty()
    } else {
        let rest = obsolete(base, files.drop_last());
        let f = files.last();
        let with_file = rest.push(crate::paths::joined_path(base, f.path@));
        match f.dv_path {
            Some(dv) => with_file.push(crate::paths::joined_path(base, dv@)),
            None => with_file,
        }
    }
}

/// Appends the paths that the files made obsolete.
fn push_obsolete(out: &mut Vec<String>, base: &str, files: &Vec<DataFileMeta>)
    ensures
        crate::text::texts(final(out)@)
            == crate::text::texts(old(out)@) + obsolete(base@, files@),
{
    let ghost before = crate::text::texts(out@);
    let mut i: usize = 0;
    assert(before + obsolete(base@, files@.take(0)) =~= before);
    while i < files.len()
        invariant
            i <= files@.len(),
            crate::text::texts(out@) == before + obsolete(
                base@,
                files@.take(i as int),
            ),
        decreases files@.len() - i,
    {
        let ghost t0 = crate::text::texts(out@);
        out.push(join(base, files[i].path.as_str()));
        proof {
            assert(crate::text::texts(out@) =~= t0.push(
                crate::paths::joined_path(base@, files@[i as int].path@),
            ));
            assert(files@.take(i + 1).drop_last() =~= files@.take(i as int));
        }
        let ghost t1 = crate::text::texts(out@);
        match &files[i].dv_path {
            Some(dv) => {
                out.push(join(base, dv.as_str()));
                assert(crate::text::texts(out@) =~= t1.push(
                    crate::paths::joined_path(base@, dv@),
                ));
            },
            None => {},
        }
        i = i + 1;
        assert(crate::text::texts(out@) =~= before + obsolete(
            base@,
            files@.take(i as int),
        ));
    }
    assert(files@.take(i as int) =~= files@);
}

/// The paths on disk that a committed compaction made obsolete, to be deleted
/// once the grace period is over.
pub fn obsoleted_paths(base: &str, plan: &CompactionPlan) -> (r: Vec<String>)
    ensures
        crate::text::texts(r@) == obsolete(base@, plan.inputs@) + obsolete(
            base@,
            plan.overlaps@,
        ),
        forall|i: int|
            0 <= i < plan.inputs@.len() ==> crate::text::texts(r@).contains(
                crate::paths::joined_path(base@, (#[trigger] plan.inputs@[i]).path@),
            ) && (plan.inputs@[i].dv_path matches Some(dv) ==> crate::text::texts(r@).contains(
                crate::paths::joined_path(base@, dv@),
            )),
        forall|i: int|
            0 <= i < plan.overlaps@.len() ==> crate::text::texts(r@).contains(
                crate::paths::joined_path(base@, (#[trigger] plan.overlaps@[i]).path@),
            ) && (plan.overlaps@[i].dv_path matches Some(dv) ==> crate::text::texts(r@).contains(
                crate::paths::joined_path(base@, dv@),
            )),
{
    let mut r: Vec<String> = Vec::new();
    assert(crate::text::texts(r@) =~= Seq::empty());
    push_obsolete(&mut r, base, &plan.inputs);
    push_obsolete(&mut r, base, &plan.overlaps);
    assert(crate::text::texts(r@) =~= obsolete(base@, plan.inputs@)
        + obsolete(base@, plan.overlaps@));
    proof {
        law_everything_read_becomes_obsolete(base@, *plan);
    }
    r
}

/// The path of every listed file is there, and that of its Puffin file where
/// it has one; and no other path.
proof fn lemma_obsolete_members(base: Seq<char>, files: Seq<DataFileMeta>)
    ensures
        forall|i: int|
            0 <= i < files.len() ==> obsolete(base, files).contains(
                crate::paths::joined_path(base, (#[trigger] files[i]).path@),
            ),
        forall|i: int|
            0 <= i < files.len() && files[i].dv_path is Some ==> obsolete(base, files).contains(
                crate::paths::joined_path(base, (#[trigger] files[i]).dv_path->0@),
            ),
        forall|p: Seq<char>| #[trigger]
            obsolete(base, files).contains(p) ==> exists|i: int|
                0 <= i < files.len() && (p == crate::paths::joined_path(
                    base,
                    (#[trigger] files[i]).path@,
                ) || (files[i].dv_path is Some && p == crate::paths::joined_path(
                    base,
                    files[i].dv_path->0@,
                ))),
    decreases files.len(),
{
    if files.len() > 0 {
        let n = files.len() - 1;
        let init = files.drop_last();
        let rest = obsolete(base, init);
        let all = obsolete(base, files);
        let last_path = crate::paths::joined_path(base, files[n].path@);
        lemma_obsolete_members(base, init);
        assert(all[rest.len() as int] == last_path);
        assert forall|p: Seq<char>| rest.contains(p) implies all.contains(p) by {
            let k = choose|k: int| 0 <= k < rest.len() && rest[k] == p;
            assert(all[k] == p);
        }
        assert forall|i: int| 0 <= i < files.len() implies all.contains(
            crate::paths::joined_path(base, (#[trigger] files[i]).path@),
        ) by {
            if i < n {
                assert(init[i] == files[i]);
                assert(rest.contains(crate::paths::joined_path(base, init[i].path@)));
            }
        }
        assert forall|i: int| 0 <= i < files.len() && files[i].dv_path is Some implies all.contains(
            crate::paths::joined_path(base, (#[trigger] files[i]).dv_path->0@),
        ) by {
            if i < n {
                assert(init[i] == files[i]);
                assert(rest.contains(crate::paths::joined_path(base, init[i].dv_path->0@)));
            } else {
                assert(all[rest.len() as int + 1] == crate::paths::joined_path(
                    base,
                    files[n].dv_path->0@,
                ));
            }
        }
        assert forall|p: Seq<char>| #[trigger] all.contains(p) implies exists|i: int|
            0 <= i < files.len() && (p == crate::paths::joined_path(
                base,
                (#[trigger] files[i]).path@,
            ) || (files[i].dv_path is Some && p == crate::paths::joined_path(
                base,
                files[i].dv_path->0@,
            ))) by {
            let k = choose|k: int| 0 <= k < all.len() && all[k] == p;
            if k < rest.len() {
                assert(rest[k] == p);
                assert(rest.contains(p));
                let i = choose|i: int|
                    0 <= i < init.len() && (p == crate::paths::joined_path(
                        base,
                        (#[trigger] init[i]).path@,
                    ) || (init[i].dv_path is Some && p == crate::paths::joined_path(
                        base,
                        init[i].dv_path->0@,
                    )));
                assert(files[i] == init[i]);
            } else {
                assert(files[n] == files.last());
            }
        }
    }
}

/// Once a compaction is committed, every file that its plan lists as an input
/// or an overlap is obsolete, and so is the Puffin file of each that has one;
/// nothing else is.
pub proof fn law_everything_read_becomes_obsolete(base: Seq<char>, plan: CompactionPlan)
    ensures
        ({
            let gone = obsolete(base, plan.inputs@) + obsolete(base, plan.overlaps@);
            &&& forall|i: int|
                0 <= i < plan.inputs@.len() ==> gone.contains(
                    crate::paths::joined_path(base, (#[trigger] plan.inputs@[i]).path@),
                )
            &&& forall|i: int|
                0 <= i < plan.inputs@.len() && plan.inputs@[i].dv_path is Some ==> gone.contains(
                    crate::paths::joined_path(base, (#[trigger] plan.inputs@[i]).dv_path->0@),
                )
            &&& forall|i: int|
                0 <= i < plan.overlaps@.len() ==> gone.contains(
                    crate::paths::joined_path(base, (#[trigger] plan.overlaps@[i]).path@),
                )
            &&& forall|i: int|
                0 <= i < plan.overlaps@.len() && plan.overlaps@[i].dv_path is Some
                    ==> gone.contains(
                    crate::paths::joined_path(base, (#[trigger] plan.overlaps@[i]).dv_path->0@),
                )
            &&& forall|p: Seq<char>| #[trigger]
                gone.contains(p) ==> {
                    ||| exists|i: int|
                        0 <= i < plan.inputs@.len() && (p == crate::paths::joined_path(
                            base,
                            (#[trigger] plan.inputs@[i]).path@,
                        ) || (plan.inputs@[i].dv_path is Some && p == crate::paths::joined_path(
                            base,
                            plan.inputs@[i].dv_path->0@,
                        )))
                    ||| exists|i: int|
                        0 <= i < plan.overlaps@.len() && (p == crate::paths::joined_path(
                            base,
                            (#[trigger] plan.overlaps@[i]).path@,
                        ) || (plan.overlaps@[i].dv_path is Some && p == crate::paths::joined_path(
                            base,
                            plan.overlaps@[i].dv_path->0@,
                        )))
                }
        }),
{
    lemma_obsolete_members(base, plan.inputs@);
    lemma_obsolete_members(base, plan.overlaps@);
    let a = obsolete(base, plan.inputs@);
    let b = obsolete(base, plan.overlaps@);
    let gone = a + b;
    assert forall|p: Seq<char>| #[trigger] a.contains(p) implies gone.contains(p) by {
        let k = choose|k: int| 0 <= k < a.len() && a[k] == p;
        assert(gone[k] == p);
    }
    assert forall|p: Seq<char>| #[trigger] b.contains(p) implies gone.contains(p) by {
        let k = choose|k: int| 0 <= k < b.len() && b[k] == p;
        assert(gone[a.len() + k] == p);
    }
    assert forall|p: Seq<char>| #[trigger] gone.contains(p) implies a.contains(p) || b.contains(
        p,
    ) by {
        let k = choose|k: int| 0 <= k < gone.len() && gone[k] == p;
        if k < a.len() {
            assert(a[k] == p);
        } else {
            assert(b[k - a.len()] == p);
        }
    }
}

/// What to do after one compaction of a run.
#[derive(Debug, Clone, Copy, PartialEq, Eq, Structural)]
pub enum RunStep {
    /// Run another one.
    Again,
    /// No pressure is left, or other workers own it.
    Drained,
    /// Enough for this run; the next trigger resumes.
    Capped,
}

/// How many compactions one run makes at most.
pub const MAX_ITERATIONS: usize = 128;

/// What to do after compaction number `iter` of a run, counted from 0.
pub fn after_compaction(iter: usize, did_work: bool) -> (r: RunStep)
    ensures
        r == if !did_work {
            RunStep::Drained
        } else if iter + 1 >= MAX_ITERATIONS {
            RunStep::Capped
        } else {
            RunStep::Again
        },
        r == RunStep::Capped <==> did_work && iter >= 127,
{
    if !did_work {
        RunStep::Drained
    } else if iter >= MAX_ITERATIONS - 1 {
        RunStep::Capped
    } else {
        RunStep::Again
    }
}

/// Where a source file's deletion vector lies: path, offset and length come
/// together or not at all; anything else is corruption.
pub fn source_dv_path(file: &DataFileMeta) -> (r: Result<Option<String>>)
    ensures
        match r {
            Ok(Some(p)) => {
                &&& file.dv_path == Some(p)
                &&& file.dv_offset is Some
                &&& file.dv_length is Some
            },
            Ok(None) => file.dv_path is None && file.dv_offset is None && file.dv_length is None,
            Err(e) => {
                &&& !(file.dv_path is Some && file.dv_offset is Some && file.dv_length is Some)
                &&& !(file.dv_path is None && file.dv_offset is None && file.dv_length is None)
                &&& e@ == ErrorView::Corruption(
                    "inconsistent DV coords on file "@ + file.path@ + ": dv_path="@
                        + crate::text::shown_text(file.dv_path) + " dv_offset="@ + crate::text::shown_number(file.dv_offset) + " dv_length="@
                        + crate::text::shown_number(file.dv_length),
                )
            },
        },
{
    if file.dv_path.is_none() && file.dv_offset.is_none() && file.dv_length.is_none() {
        return Ok(None);
    }
    if file.dv_offset.is_some() && file.dv_length.is_some() {
        match &file.dv_path {
            Some(p) => return Ok(Some(p.clone())),
            None => {},
        }
    }
    let mut m = joined("inconsistent DV coords on file ", file.path.as_str());
    m.append(": dv_path=");
    m.append(show_text(&file.dv_path).as_str());
    m.append(" dv_offset=");
    m.append(show_number(file.dv_offset).as_str());
    m.append(" dv_length=");
    m.append(show_number(file.dv_length).as_str());
    Err(MeruError::Corruption(m))
}

/// The deletion vector that lies at `[offset, offset + length)` of a Puffin
/// file, or what is wrong with that range.
pub open spec fn dv_at(
    path: Seq<char>,
    dv_path: Seq<char>,
    offset: i64,
    length: i64,
    puffin: Seq<u8>,
) -> std::result::Result<Set<u32>, ErrorView> {
    if offset < 0 || length < 0 {
        Err(
            ErrorView::Corruption(
                "DV has negative offset ("@ + crate::text::dec_int(offset as int)
                    + ") or length ("@ + crate::text::dec_int(length as int) + ") on file "@
                    + path,
            ),
        )
    } else if offset + length > puffin.len() {
        Err(
            ErrorView::Corruption(
                "DV blob out of range: path="@ + dv_path + " offset="@ + crate::text::dec_int(
                    offset as int,
                ) + " length="@ + crate::text::dec_int(length as int) + " puffin_len="@
                    + crate::text::dec_nat(puffin.len()),
            ),
        )
    } else {
        crate::iceberg::deletion_vector::blob_decoded(
            puffin.subrange(offset as int, offset + length),
        )
    }
}

/// Loads a source file's deletion vector from the bytes of its Puffin file,
/// at exactly the recorded range.
pub fn load_source_dv(file: &DataFileMeta, puffin: &[u8]) -> (r: Result<DeletionVector>)
    requires
        file.dv_path is Some,
        file.dv_offset is Some,
        file.dv_length is Some,
    ensures
        ({
            let want = dv_at(
                file.path@,
                file.dv_path->0@,
                file.dv_offset->0,
                file.dv_length->0,
                puffin@,
            );
            match r {
                Ok(dv) => want == Ok::<Set<u32>, ErrorView>(dv@),
                Err(e) => want == Err::<Set<u32>, ErrorView>(e@),
            }
        }),
{
    let offset: i64 = file.dv_offset.unwrap();
    let length: i64 = file.dv_length.unwrap();
    if offset < 0 || length < 0 {
        let mut m = joined("DV has negative offset (", dec_i64(offset).as_str());
        m.append(") or length (");
        m.append(dec_i64(length).as_str());
        m.append(") on file ");
        m.append(file.path.as_str());
        return Err(MeruError::Corruption(m));
    }
    let end: u64 = offset as u64 + length as u64;
    if end > puffin.len() as u64 {
        let mut m = "DV blob out of range: path=".to_owned();
        match &file.dv_path {
            Some(p) => m.append(p.as_str()),
            None => {},
        }
        m.append(" offset=");
        m.append(dec_i64(offset).as_str());
        m.append(" length=");
        m.append(dec_i64(length).as_str());
        m.append(" puffin_len=");
        m.append(dec_u64(puffin.len() as u64).as_str());
        return Err(MeruError::Corruption(m));
    }
    DeletionVector::from_puffin_blob(
        vstd::slice::slice_subrange(puffin, offset as usize, end as usize),
    )
}

/// The range of some files reaches around each of them: no file begins before
/// it or ends behind it, and it has no upper end exactly where one of the
/// files has none. Both ends are those of a file.
pub proof fn law_union_range_reaches_around_every_file(
    files: Seq<DataFileMeta>,
    lo: Seq<u8>,
    hi: Seq<u8>,
    i: int,
)
    requires
        is_union_min(files, lo),
        is_union_max(files, hi),
        0 <= i < files.len(),
    ensures
        crate::keyorder::key_le(lo, files[i].meta.key_min@),
        hi.len() > 0 ==> files[i].meta.key_max@.len() > 0 && crate::keyorder::key_le(
            files[i].meta.key_max@,
            hi,
        ),
        exists|k: int| 0 <= k < files.len() && (#[trigger] files[k]).meta.key_min@ == lo,
        exists|k: int| 0 <= k < files.len() && (#[trigger] files[k]).meta.key_max@ == hi,
{
    if unbounded(files) {
        let k = choose|k: int| 0 <= k < files.len() && (#[trigger] files[k]).meta.key_max@.len()
            == 0;
        assert(files[k].meta.key_max@ =~= hi);
    }
}

/// The files that meet a range are gathered one by one and in order: each is
/// taken exactly when it does not begin behind the range or end before it,
/// where an empty upper end is no end.
pub proof fn law_meeting_files_are_gathered_in_order(
    files: Seq<DataFileMeta>,
    f: DataFileMeta,
    lo: Seq<u8>,
    hi: Seq<u8>,
)
    ensures
        meeting(Seq::empty(), lo, hi).len() == 0,
        (hi.len() == 0 || !crate::keyorder::key_lt(hi, f.meta.key_min@)) && (
        f.meta.key_max@.len() == 0 || !crate::keyorder::key_lt(f.meta.key_max@, lo))
            ==> meeting(files.push(f), lo, hi) == meeting(files, lo, hi).push(f@),
        (hi.len() > 0 && crate::keyorder::key_lt(hi, f.meta.key_min@)) || (f.meta.key_max@.len()
            > 0 && crate::keyorder::key_lt(f.meta.key_max@, lo)) ==> meeting(
            files.push(f),
            lo,
            hi,
        ) == meeting(files, lo, hi),
{
    assert(files.push(f).drop_last() =~= files);
    crate::keyorder::lemma_key_order_total(f.meta.key_min@, hi);
    crate::keyorder::lemma_key_order_total(lo, f.meta.key_max@);
}

/// A plan reads the whole input level, and every file of the output level that
/// may hold a key in common with a file of the input level. A file without a
/// largest key has no upper end.
pub proof fn law_plan_reads_every_file_with_a_common_key(
    version: &Version,
    plan: &CompactionPlan,
    i: int,
    j: int,
    key: Seq<u8>,
)
    requires
        plan.is_for(version, plan.input_level, plan.output_level),
        0 <= i < version.files(plan.input_level.0 as int).len(),
        0 <= j < version.files(plan.output_level.0 as int).len(),
        ({
            let f = version.files(plan.input_level.0 as int)[i];
            let g = version.files(plan.output_level.0 as int)[j];
            &&& crate::keyorder::key_le(f.meta.key_min@, key)
            &&& f.meta.key_max@.len() == 0 || crate::keyorder::key_le(key, f.meta.key_max@)
            &&& crate::keyorder::key_le(g.meta.key_min@, key)
            &&& g.meta.key_max@.len() == 0 || crate::keyorder::key_le(key, g.meta.key_max@)
        }),
    ensures
        plan.inputs@.len() == version.files(plan.input_level.0 as int).len(),
        plan.inputs@[i]@ == version.files(plan.input_level.0 as int)[i]@,
        exists|k: int|
            0 <= k < plan.overlaps@.len() && (#[trigger] plan.overlaps@[k])@ == version.files(
                plan.output_level.0 as int,
            )[j]@,
{
    let in_files = version.files(plan.input_level.0 as int);
    let out_files = version.files(plan.output_level.0 as int);
    let f = in_files[i];
    let g = out_files[j];
    let (lo, hi) = choose|lo: Seq<u8>, hi: Seq<u8>|
        {
            &&& is_union_min(in_files, lo)
            &&& is_union_max(in_files, hi)
            &&& views(plan.overlaps@) == #[trigger] meeting(out_files, lo, hi)
        };
    lemma_planned_files(version, plan, lo, hi);
    crate::keyorder::lemma_key_le_transitive(lo, f.meta.key_min@, key);
    if g.meta.key_max@.len() > 0 {
        crate::keyorder::lemma_key_le_transitive(lo, key, g.meta.key_max@);
    }
    if hi.len() > 0 {
        assert(!unbounded(in_files));
        crate::keyorder::lemma_key_le_transitive(key, f.meta.key_max@, hi);
        crate::keyorder::lemma_key_le_transitive(g.meta.key_min@, key, hi);
    }
    assert(meets(out_files[j], lo, hi));
    assert(crate::iceberg::version::lists(plan.overlaps@, out_files[j]@));
}

/// A plan reads nothing else: each overlap is a file of the output level that
/// does not begin behind all files of the input level or end before all of
/// them.
pub proof fn law_plan_reads_nothing_out_of_reach(
    version: &Version,
    plan: &CompactionPlan,
    k: int,
)
    requires
        plan.is_for(version, plan.input_level, plan.output_level),
        0 <= k < plan.overlaps@.len(),
    ensures
        exists|j: int|
            0 <= j < version.files(plan.output_level.0 as int).len() && (#[trigger] version.files(
                plan.output_level.0 as int,
            )[j])@ == plan.overlaps@[k]@,
        exists|i: int|
            0 <= i < version.files(plan.input_level.0 as int).len() && ((#[trigger] version.files(
                plan.input_level.0 as int,
            )[i]).meta.key_max@.len() == 0 || crate::keyorder::key_le(
                plan.overlaps@[k]@.meta.key_min,
                version.files(plan.input_level.0 as int)[i].meta.key_max@,
            )),
        exists|i: int|
            0 <= i < version.files(plan.input_level.0 as int).len() && (
            plan.overlaps@[k]@.meta.key_max.len() == 0 || crate::keyorder::key_le(
                (#[trigger] version.files(plan.input_level.0 as int)[i]).meta.key_min@,
                plan.overlaps@[k]@.meta.key_max,
            )),
{
    let in_files = version.files(plan.input_level.0 as int);
    let out_files = version.files(plan.output_level.0 as int);
    let (lo, hi) = choose|lo: Seq<u8>, hi: Seq<u8>|
        {
            &&& is_union_min(in_files, lo)
            &&& is_union_max(in_files, hi)
            &&& views(plan.overlaps@) == #[trigger] meeting(out_files, lo, hi)
        };
    lemma_planned_files(version, plan, lo, hi);
    let j = choose|j: int|
        0 <= j < out_files.len() && meets(#[trigger] out_files[j], lo, hi) && out_files[j]@
            == plan.overlaps@[k]@;
    assert(out_files[j]@ == plan.overlaps@[k]@);
    law_union_range_reaches_around_every_file(in_files, lo, hi, 0);
    let a = choose|a: int| 0 <= a < in_files.len() && (#[trigger] in_files[a]).meta.key_min@ == lo;
    let b = choose|b: int| 0 <= b < in_files.len() && (#[trigger] in_files[b]).meta.key_max@ == hi;
    assert(in_files[a].meta.key_min@ == lo);
    assert(in_files[b].meta.key_max@ == hi);
}

/// What a compaction removes is named path by path: each input, then each
/// overlap.
pub proof fn law_every_read_file_is_named(files: Seq<DataFileMeta>)
    ensures
        file_paths(files).len() == files.len(),
        forall|i: int| 0 <= i < files.len() ==> #[trigger] file_paths(files)[i] == files[i].path@,
        views(files).len() == files.len(),
        forall|i: int| 0 <= i < files.len() ==> #[trigger] views(files)[i] == files[i]@,
{
}

/// A compaction adds its output where it has one, and nothing otherwise.
pub proof fn law_output_is_added_once(f: IcebergDataFile)
    ensures
        listed(Some(f)).len() == 1,
        listed(Some(f))[0] == f,
        listed(None).len() == 0,
{
}

/// The properties of a compaction's snapshot name the job and give both
/// levels in decimal.
pub proof fn law_compaction_props_give_the_levels(
    props: Map<Seq<char>, String>,
    input: Level,
    output: Level,
)
    requires
        compaction_props(props, input, output),
    ensures
        props.contains_key("merutable.job"@),
        props["merutable.job"@]@ == "compaction"@,
        props.contains_key("merutable.input_level"@),
        crate::text::digits_value(props["merutable.input_level"@]@) == input.0,
        props.contains_key("merutable.output_level"@),
        crate::text::digits_value(props["merutable.output_level"@]@) == output.0,
        forall|k: Seq<char>| #[trigger]
            props.contains_key(k) ==> k == "merutable.job"@ || k == "merutable.input_level"@ || k
                == "merutable.output_level"@,
{
    crate::text::lemma_dec_nat_digits(input.0 as nat);
    crate::text::lemma_dec_nat_digits(output.0 as nat);
    assert(props.dom().contains("merutable.job"@));
    assert(props.dom().contains("merutable.input_level"@));
    assert(props.dom().contains("merutable.output_level"@));
}

/// A deletion vector is read from the bytes of its range, no more and no
/// fewer; a range that does not lie in the file is corrupt, whatever the
/// bytes.
pub proof fn law_source_dv_is_read_from_its_range(
    path: Seq<char>,
    dv_path: Seq<char>,
    offset: i64,
    length: i64,
    head: Seq<u8>,
    blob: Seq<u8>,
    tail: Seq<u8>,
)
    ensures
        offset == head.len() && length == blob.len() ==> dv_at(
            path,
            dv_path,
            offset,
            length,
            head + blob + tail,
        ) == crate::iceberg::deletion_vector::blob_decoded(blob),
        offset < 0 || length < 0 || offset + length > (head + blob + tail).len() ==> (dv_at(
            path,
            dv_path,
            offset,
            length,
            head + blob + tail,
        ) matches Err(e) && e is Corruption),
{
    let all = head + blob + tail;
    if offset == head.len() && length == blob.len() {
        assert(all.subrange(offset as int, offset + length) =~= blob);
    }
}

} // verus!
