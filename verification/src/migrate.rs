//! Moving a table from one commit layout to another.

use vstd::prelude::*;
use vstd::string::*;

use crate::iceberg::manifest::{Manifest, ManifestEntry};
use crate::text::{dec_i64, dec_u64, joined};
use crate::types::level::copy_opt_text;

verus! {

/// The commit layout of a table.
#[derive(Clone, Copy, Debug, PartialEq, Eq, Structural)]
pub enum Layout {
    /// Commits by atomic rename.
    Posix,
    /// Commits by create-only PUT.
    ObjectStore,
}

impl Layout {
    /// The layout's name.
    pub open spec fn label(self) -> Seq<char> {
        match self {
            Layout::Posix => "Posix"@,
            Layout::ObjectStore => "ObjectStore"@,
        }
    }

    /// The layout's name.
    pub fn name(self) -> (r: &'static str)
        ensures
            r@ == self.label(),
    {
        match self {
            Layout::Posix => "Posix",
            Layout::ObjectStore => "ObjectStore",
        }
    }
}

/// What a migration was asked to do.
#[derive(Debug)]
pub struct MigrateArgs {
    pub from: Layout,
    pub src: String,
    pub to: Layout,
    pub dst: String,
    /// Show the plan and write nothing.
    pub dry_run: bool,
    /// Read every file back and compare it.
    pub verify: bool,
    pub copy_parallelism: usize,
    pub resume: bool,
    pub keep_source: bool,
    pub delete_source: bool,
}

/// The files of a migration.
#[derive(Debug)]
pub struct MigrationPlan {
    pub source_snapshot_id: i64,
    pub source_table_uuid: String,
    pub data_files: Vec<PlanEntry>,
    /// The bytes of the files and their deletion vectors.
    pub total_bytes: u64,
}

/// One data file of a migration.
#[derive(Debug)]
pub struct PlanEntry {
    pub path: String,
    pub bytes: u64,
    pub num_rows: u64,
    pub dv_path: Option<String>,
}

/// [`PlanEntry`] with its texts as sequences of characters.
pub struct PlanEntryView {
    pub path: Seq<char>,
    pub bytes: u64,
    pub num_rows: u64,
    pub dv_path: Option<Seq<char>>,
}

impl View for PlanEntry {
    type V = PlanEntryView;

    open spec fn view(&self) -> PlanEntryView {
        PlanEntryView {
            path: self.path@,
            bytes: self.bytes,
            num_rows: self.num_rows,
            dv_path: crate::types::level::opt_text(self.dv_path),
        }
    }
}

/// How a run ends that does not succeed.
#[derive(Debug)]
pub struct Failure {
    /// The exit code.
    pub code: i32,
    pub message: String,
}

/// What the plan says of a manifest entry.
pub open spec fn planned(e: ManifestEntry) -> PlanEntryView {
    PlanEntryView {
        path: e.path@,
        bytes: e.meta.file_size,
        num_rows: e.meta.num_rows,
        dv_path: crate::types::level::opt_text(e.dv_path),
    }
}

/// The live entries, in their order.
pub open spec fn live_entries(entries: Seq<ManifestEntry>) -> Seq<ManifestEntry>
    decreases entries.len(),
{
    if entries.len() == 0 {
        Seq::empty()
    } else if crate::iceberg::manifest::is_live(entries.last()) {
        live_entries(entries.drop_last()).push(entries.last())
    } else {
        live_entries(entries.drop_last())
    }
}

/// The bytes of a file and of its deletion vector.
pub open spec fn stored_bytes(e: ManifestEntry) -> int {
    e.meta.file_size + (match e.dv_length {
        Some(n) => if n > 0 {
            n as int
        } else {
            0
        },
        None => 0,
    })
}

/// The bytes of all these files and their deletion vectors.
pub open spec fn sum_of_bytes(entries: Seq<ManifestEntry>) -> int
    decreases entries.len(),
{
    if entries.len() == 0 {
        0
    } else {
        sum_of_bytes(entries.drop_last()) + stored_bytes(entries.last())
    }
}

/// A prefix of the files has no more bytes than all of them.
proof fn lemma_bytes_of_prefix(entries: Seq<ManifestEntry>, n: int)
    requires
        0 <= n <= entries.len(),
    ensures
        0 <= sum_of_bytes(live_entries(entries.take(n))) <= sum_of_bytes(live_entries(entries)),
        n < entries.len() && crate::iceberg::manifest::is_live(entries[n])
            ==> sum_of_bytes(live_entries(entries.take(n))) + stored_bytes(entries[n])
            <= sum_of_bytes(live_entries(entries)),
    decreases entries.len(),
{
    if n == entries.len() {
        assert(entries.take(n) =~= entries);
        if n > 0 {
            lemma_bytes_of_prefix(entries.drop_last(), n - 1);
            lemma_bytes_of_last(entries);
            assert(entries.drop_last().take(n - 1) =~= entries.drop_last());
        }
    } else {
        assert(entries.drop_last().take(n) =~= entries.take(n));
        lemma_bytes_of_prefix(entries.drop_last(), n);
        lemma_bytes_of_last(entries);
        if n < entries.len() - 1 {
            assert(entries.drop_last()[n] == entries[n]);
        } else {
            assert(entries.take(n) =~= entries.drop_last());
            assert(entries.last() == entries[n]);
        }
    }
}

/// The last entry adds its own bytes where it is live.
proof fn lemma_bytes_of_last(entries: Seq<ManifestEntry>)
    requires
        entries.len() > 0,
    ensures
        sum_of_bytes(live_entries(entries)) == sum_of_bytes(live_entries(entries.drop_last())) + (
        if crate::iceberg::manifest::is_live(entries.last()) {
            stored_bytes(entries.last())
        } else {
            0
        }),
{
    if crate::iceberg::manifest::is_live(entries.last()) {
        let before = live_entries(entries.drop_last());
        assert(live_entries(entries) == before.push(entries.last()));
        assert(before.push(entries.last()).drop_last() =~= before);
    }
}

/// The files that a plan lists.
pub open spec fn plan_views(files: Seq<PlanEntry>) -> Seq<PlanEntryView> {
    Seq::new(files.len(), |i: int| files[i]@)
}

/// The plan of a migration from a table's current state: its live files with
/// their sizes. A migrated table starts at its first version, so entries of
/// removed files are left out.
pub fn build_plan(manifest: &Manifest) -> (r: MigrationPlan)
    requires
        sum_of_bytes(live_entries(manifest.entries@)) <= u64::MAX,
    ensures
        r.source_snapshot_id == manifest.snapshot_id,
        r.source_table_uuid@ == manifest.table_uuid@,
        plan_views(r.data_files@) == live_entries(manifest.entries@).map_values(
            |e: ManifestEntry| planned(e),
        ),
        r.total_bytes == sum_of_bytes(live_entries(manifest.entries@)),
{
    let ghost entries = manifest.entries@;
    let ghost as_plan = |e: ManifestEntry| planned(e);
    let mut data_files: Vec<PlanEntry> = Vec::new();
    let mut total_bytes: u64 = 0;
    let mut i: usize = 0;
    assert(entries.take(0) =~= Seq::empty());
    assert(plan_views(data_files@) =~= live_entries(entries.take(0)).map_values(as_plan));
    while i < manifest.entries.len()
        invariant
            i <= manifest.entries@.len(),
            entries == manifest.entries@,
            as_plan == (|e: ManifestEntry| planned(e)),
            sum_of_bytes(live_entries(entries)) <= u64::MAX,
            plan_views(data_files@) == live_entries(entries.take(i as int)).map_values(as_plan),
            total_bytes == sum_of_bytes(live_entries(entries.take(i as int))),
        decreases manifest.entries@.len() - i,
    {
        let e = &manifest.entries[i];
        let ghost before = live_entries(entries.take(i as int));
        let ghost files = data_files@;
        proof {
            assert(entries.take(i + 1).drop_last() =~= entries.take(i as int));
            assert(entries.take(i + 1).last() == entries[i as int]);
            lemma_bytes_of_prefix(entries, i as int);
            lemma_bytes_of_last(entries.take(i + 1));
        }
        if e.live() {
            total_bytes = total_bytes + e.meta.file_size;
            if let Some(dv_length) = e.dv_length {
                if dv_length > 0 {
                    total_bytes = total_bytes + dv_length as u64;
                }
            }
            let entry = PlanEntry {
                path: e.path.clone(),
                bytes: e.meta.file_size,
                num_rows: e.meta.num_rows,
                dv_path: copy_opt_text(&e.dv_path),
            };
            data_files.push(entry);
            proof {
                assert(plan_views(data_files@) =~= plan_views(files).push(entry@));
                assert(entry@ == as_plan(entries[i as int]));
                assert(live_entries(entries.take(i + 1)) == before.push(entries[i as int]));
                assert(before.push(entries[i as int]).map_values(as_plan) =~= before.map_values(
                    as_plan,
                ).push(as_plan(entries[i as int])));
            }
        }
        i = i + 1;
    }
    assert(entries.take(i as int) =~= entries);
    MigrationPlan {
        source_snapshot_id: manifest.snapshot_id,
        source_table_uuid: manifest.table_uuid.clone(),
        data_files,
        total_bytes,
    }
}

/// A plan lists the live files and no others: what it lists is the plan of
/// some live entry, and every live entry is listed.
pub proof fn law_plan_lists_the_live_files(entries: Seq<ManifestEntry>)
    ensures
        forall|k: int|
            0 <= k < live_entries(entries).len() ==> crate::iceberg::manifest::is_live(
                #[trigger] live_entries(entries)[k],
            ) && entries.contains(live_entries(entries)[k]),
        forall|i: int|
            0 <= i < entries.len() && crate::iceberg::manifest::is_live(#[trigger] entries[i])
                ==> live_entries(entries).contains(entries[i]),
    decreases entries.len(),
{
    if entries.len() > 0 {
        let before = entries.drop_last();
        law_plan_lists_the_live_files(before);
        let live = live_entries(entries);
        let live_before = live_entries(before);
        assert forall|k: int| 0 <= k < live.len() implies crate::iceberg::manifest::is_live(
            #[trigger] live[k],
        ) && entries.contains(live[k]) by {
            if k < live_before.len() {
                assert(live[k] == live_before[k]);
                let j = choose|j: int| 0 <= j < before.len() && before[j] == live_before[k];
                assert(entries[j] == live[k]);
            } else {
                assert(live[k] == entries[entries.len() - 1]);
            }
        }
        assert forall|i: int|
            0 <= i < entries.len() && crate::iceberg::manifest::is_live(
                #[trigger] entries[i],
            ) implies live.contains(entries[i]) by {
            if i < before.len() {
                assert(before[i] == entries[i]);
                let j = choose|j: int| 0 <= j < live_before.len() && live_before[j] == before[i];
                assert(live[j] == entries[i]);
            } else {
                assert(live[live.len() - 1] == entries[i]);
            }
        }
    }
}

/// The rows of all these files.
pub open spec fn sum_of_rows(files: Seq<PlanEntry>) -> int
    decreases files.len(),
{
    if files.len() == 0 {
        0
    } else {
        sum_of_rows(files.drop_last()) + files.last().num_rows
    }
}

/// A prefix of the files has no more rows than all of them.
proof fn lemma_rows_of_prefix(files: Seq<PlanEntry>, n: int)
    requires
        0 <= n <= files.len(),
    ensures
        0 <= sum_of_rows(files.take(n)) <= sum_of_rows(files),
    decreases files.len(),
{
    if n == files.len() {
        assert(files.take(n) =~= files);
        if n > 0 {
            lemma_rows_of_prefix(files.drop_last(), n - 1);
        }
    } else {
        assert(files.drop_last().take(n) =~= files.take(n));
        lemma_rows_of_prefix(files.drop_last(), n);
    }
}

/// The rows of all these files.
fn total_rows(files: &Vec<PlanEntry>) -> (r: u64)
    requires
        sum_of_rows(files@) <= u64::MAX,
    ensures
        r == sum_of_rows(files@),
{
    let mut rows: u64 = 0;
    let mut i: usize = 0;
    while i < files.len()
        invariant
            i <= files@.len(),
            sum_of_rows(files@) <= u64::MAX,
            rows == sum_of_rows(files@.take(i as int)),
        decreases files@.len() - i,
    {
        proof {
            assert(files@.take(i + 1).drop_last() =~= files@.take(i as int));
            lemma_rows_of_prefix(files@, i + 1);
        }
        rows = rows + files[i].num_rows;
        i = i + 1;
    }
    assert(files@.take(i as int) =~= files@);
    rows
}

/// The files among these that have a deletion vector.
pub open spec fn count_with_dv(files: Seq<PlanEntry>) -> nat
    decreases files.len(),
{
    if files.len() == 0 {
        0
    } else {
        count_with_dv(files.drop_last()) + if files.last().dv_path is Some {
            1nat
        } else {
            0nat
        }
    }
}

/// The files among these that have a deletion vector.
fn files_with_dv(files: &Vec<PlanEntry>) -> (r: usize)
    ensures
        r == count_with_dv(files@),
{
    let mut n: usize = 0;
    let mut i: usize = 0;
    while i < files.len()
        invariant
            n <= i <= files@.len(),
            n == count_with_dv(files@.take(i as int)),
        decreases files@.len() - i,
    {
        assert(files@.take(i + 1).drop_last() =~= files@.take(i as int));
        if files[i].dv_path.is_some() {
            n = n + 1;
        }
        i = i + 1;
    }
    assert(files@.take(i as int) =~= files@);
    n
}

/// The line of one file.
pub open spec fn file_line(e: PlanEntry) -> Seq<char> {
    "    "@ + e.path@ + " ("@ + crate::text::dec_nat(e.bytes as nat) + " bytes)"@
}

/// The number of files that are shown by name.
pub const SAMPLE: usize = 5;

/// The lines of the first files.
pub open spec fn sample_lines(files: Seq<PlanEntry>) -> Seq<Seq<char>> {
    Seq::new(
        if files.len() < SAMPLE {
            files.len()
        } else {
            SAMPLE as nat
        },
        |i: int| file_line(files[i]),
    )
}

/// The lines that show a plan to an operator. `mib` is its size in MiB.
pub open spec fn report(plan: MigrationPlan, args: MigrateArgs, mib: Seq<char>) -> Seq<
    Seq<char>,
> {
    seq![
        ""@,
        "migration plan:"@,
        "  source snapshot id: "@ + crate::text::dec_int(plan.source_snapshot_id as int),
        "  source table uuid:  "@ + plan.source_table_uuid@,
        "  data files:         "@ + crate::text::dec_nat(plan.data_files@.len()),
        "  total rows:         "@ + crate::text::dec_nat(sum_of_rows(plan.data_files@) as nat),
        "  total bytes:        "@ + crate::text::dec_nat(plan.total_bytes as nat) + " ("@ + mib
            + " MiB)"@,
    ] + (if count_with_dv(plan.data_files@) > 0 {
        seq!["  files with DV:      "@ + crate::text::dec_nat(count_with_dv(plan.data_files@))]
    } else {
        Seq::empty()
    }) + seq!["  first 5 paths:"@] + sample_lines(plan.data_files@) + seq![
        ""@,
        "destination plan ("@ + args.to.label() + "):"@,
        "  dst:                "@ + args.dst@,
        "  genesis version:   v1 (no snapshot history preserved)"@,
        "  parallelism:        "@ + crate::text::dec_nat(args.copy_parallelism as nat)
            + " (would stream "@ + crate::text::dec_nat(plan.data_files@.len()) + " files)"@,
        ""@,
    ] + (if args.dry_run {
        seq!["DRY RUN: no bytes written to destination."@]
    } else {
        Seq::empty()
    })
}

/// Adds a line.
fn push_line(lines: &mut Vec<String>, line: String)
    ensures
        crate::text::texts(final(lines)@) == crate::text::texts(old(lines)@).push(line@),
{
    lines.push(line);
    assert(crate::text::texts(lines@) =~= crate::text::texts(old(lines)@).push(line@));
}

/// The lines of the plan before its sample of files.
fn push_totals(lines: &mut Vec<String>, plan: &MigrationPlan, mib: &str)
    requires
        sum_of_rows(plan.data_files@) <= u64::MAX,
    ensures
        crate::text::texts(final(lines)@) == crate::text::texts(old(lines)@) + seq![
            ""@,
            "migration plan:"@,
            "  source snapshot id: "@ + crate::text::dec_int(plan.source_snapshot_id as int),
            "  source table uuid:  "@ + plan.source_table_uuid@,
            "  data files:         "@ + crate::text::dec_nat(plan.data_files@.len()),
            "  total rows:         "@ + crate::text::dec_nat(sum_of_rows(plan.data_files@) as nat),
            "  total bytes:        "@ + crate::text::dec_nat(plan.total_bytes as nat) + " ("@
                + mib@ + " MiB)"@,
        ],
{
    push_line(lines, "".to_owned());
    push_line(lines, "migration plan:".to_owned());
    push_line(
        lines,
        joined("  source snapshot id: ", dec_i64(plan.source_snapshot_id).as_str()),
    );
    push_line(lines, joined("  source table uuid:  ", plan.source_table_uuid.as_str()));
    push_line(
        lines,
        joined("  data files:         ", dec_u64(plan.data_files.len() as u64).as_str()),
    );
    let rows: u64 = total_rows(&plan.data_files);
    push_line(lines, joined("  total rows:         ", dec_u64(rows).as_str()));
    let mut bytes = joined("  total bytes:        ", dec_u64(plan.total_bytes).as_str());
    bytes.append(" (");
    bytes.append(mib);
    bytes.append(" MiB)");
    push_line(lines, bytes);
    assert(crate::text::texts(lines@) =~= crate::text::texts(old(lines)@) + seq![
        ""@,
        "migration plan:"@,
        "  source snapshot id: "@ + crate::text::dec_int(plan.source_snapshot_id as int),
        "  source table uuid:  "@ + plan.source_table_uuid@,
        "  data files:         "@ + crate::text::dec_nat(plan.data_files@.len()),
        "  total rows:         "@ + crate::text::dec_nat(sum_of_rows(plan.data_files@) as nat),
        "  total bytes:        "@ + crate::text::dec_nat(plan.total_bytes as nat) + " ("@ + mib@
            + " MiB)"@,
    ]);
}

/// The lines of the first files.
fn push_sample(lines: &mut Vec<String>, files: &Vec<PlanEntry>)
    ensures
        crate::text::texts(final(lines)@) == crate::text::texts(old(lines)@) + sample_lines(files@),
{
    let ghost before = crate::text::texts(lines@);
    let n: usize = if files.len() < SAMPLE { files.len() } else { SAMPLE };
    let mut i: usize = 0;
    assert(before =~= before + sample_lines(files@).take(0));
    while i < n
        invariant
            i <= n <= files@.len(),
            n == sample_lines(files@).len(),
            crate::text::texts(lines@) == before + sample_lines(files@).take(i as int),
        decreases n - i,
    {
        let mut line = joined("    ", files[i].path.as_str());
        line.append(" (");
        line.append(dec_u64(files[i].bytes).as_str());
        line.append(" bytes)");
        push_line(lines, line);
        assert(before + sample_lines(files@).take(i + 1) =~= (before + sample_lines(files@).take(
            i as int,
        )).push(file_line(files@[i as int])));
        i = i + 1;
    }
    assert(sample_lines(files@).take(n as int) =~= sample_lines(files@));
}

/// The lines about the destination.
fn push_destination(lines: &mut Vec<String>, files: usize, args: &MigrateArgs)
    ensures
        crate::text::texts(final(lines)@) == crate::text::texts(old(lines)@) + seq![
            ""@,
            "destination plan ("@ + args.to.label() + "):"@,
            "  dst:                "@ + args.dst@,
            "  genesis version:   v1 (no snapshot history preserved)"@,
            "  parallelism:        "@ + crate::text::dec_nat(args.copy_parallelism as nat)
                + " (would stream "@ + crate::text::dec_nat(files as nat) + " files)"@,
            ""@,
        ],
{
    push_line(lines, "".to_owned());
    let mut heading = joined("destination plan (", args.to.name());
    heading.append("):");
    push_line(lines, heading);
    push_line(lines, joined("  dst:                ", args.dst.as_str()));
    push_line(lines, "  genesis version:   v1 (no snapshot history preserved)".to_owned());
    let mut parallelism = joined(
        "  parallelism:        ",
        dec_u64(args.copy_parallelism as u64).as_str(),
    );
    parallelism.append(" (would stream ");
    parallelism.append(dec_u64(files as u64).as_str());
    parallelism.append(" files)");
    push_line(lines, parallelism);
    push_line(lines, "".to_owned());
    assert(crate::text::texts(lines@) =~= crate::text::texts(old(lines)@) + seq![
        ""@,
        "destination plan ("@ + args.to.label() + "):"@,
        "  dst:                "@ + args.dst@,
        "  genesis version:   v1 (no snapshot history preserved)"@,
        "  parallelism:        "@ + crate::text::dec_nat(args.copy_parallelism as nat)
            + " (would stream "@ + crate::text::dec_nat(files as nat) + " files)"@,
        ""@,
    ]);
}

/// The lines that show a plan to an operator. `mib` is its size in MiB with
/// two decimals.
pub fn print_plan(plan: &MigrationPlan, args: &MigrateArgs, mib: &str) -> (r: Vec<String>)
    requires
        sum_of_rows(plan.data_files@) <= u64::MAX,
    ensures
        crate::text::texts(r@) == report(*plan, *args, mib@),
{
    let mut lines: Vec<String> = Vec::new();
    assert(crate::text::texts(lines@) =~= Seq::empty());
    push_totals(&mut lines, plan, mib);
    let with_dv: usize = files_with_dv(&plan.data_files);
    if with_dv > 0 {
        push_line(&mut lines, joined("  files with DV:      ", dec_u64(with_dv as u64).as_str()));
    }
    push_line(&mut lines, "  first 5 paths:".to_owned());
    push_sample(&mut lines, &plan.data_files);
    push_destination(&mut lines, plan.data_files.len(), args);
    if args.dry_run {
        push_line(&mut lines, "DRY RUN: no bytes written to destination.".to_owned());
    }
    assert(crate::text::texts(lines@) =~= report(*plan, *args, mib@));
    lines
}

/// What is said about a layout that is migrated to itself.
pub open spec fn same_layout_text(layout: Layout) -> Seq<char> {
    "--from and --to are both `"@ + layout.label()
        + "`. Same-layout migrations are no-ops; use the engine directly to copy data. Aborting."@
}

/// Why a table in an object store cannot be read.
pub const SOURCE_PENDING: &'static str =
    "--from object-store is not yet implemented (Issue #27 Phase 3 pending).";

/// Why nothing is written to an object store.
pub const DESTINATION_PENDING: &'static str =
    "destination `object-store` write is Issue #27 Phase 3 (not yet implemented). The --dry-run plan above shows what WOULD be migrated; re-run with --dry-run to see it without the error. Track: https://github.com/merutable/merutable/issues/27";

/// What every migration warns of.
pub const HISTORY_WARNING: &'static str =
    "warning: snapshot history is NOT preserved. Destination starts at v1 with the latest source state.";

/// `true` or `false`.
pub open spec fn shown_bool(b: bool) -> Seq<char> {
    if b {
        "true"@
    } else {
        "false"@
    }
}

fn show_bool(b: bool) -> (r: &'static str)
    ensures
        r@ == shown_bool(b),
{
    if b {
        "true"
    } else {
        "false"
    }
}

/// The lines that repeat what was asked for.
pub open spec fn banner_lines(args: MigrateArgs) -> Seq<Seq<char>> {
    seq![
        "merutable-migrate: --from "@ + args.from.label() + " --src "@ + args.src@ + " --to "@
            + args.to.label() + " --dst "@ + args.dst@,
        "  dry_run="@ + shown_bool(args.dry_run) + " verify="@ + shown_bool(args.verify)
            + " copy_parallelism="@ + crate::text::dec_nat(args.copy_parallelism as nat)
            + " resume="@ + shown_bool(args.resume) + " keep_source="@ + shown_bool(
            args.keep_source,
        ) + " delete_source="@ + shown_bool(args.delete_source),
        HISTORY_WARNING@,
    ]
}

/// The lines that repeat what was asked for.
pub fn banner(args: &MigrateArgs) -> (r: Vec<String>)
    ensures
        crate::text::texts(r@) == banner_lines(*args),
{
    let mut what = joined("merutable-migrate: --from ", args.from.name());
    what.append(" --src ");
    what.append(args.src.as_str());
    what.append(" --to ");
    what.append(args.to.name());
    what.append(" --dst ");
    what.append(args.dst.as_str());
    let mut how = joined("  dry_run=", show_bool(args.dry_run));
    how.append(" verify=");
    how.append(show_bool(args.verify));
    how.append(" copy_parallelism=");
    how.append(dec_u64(args.copy_parallelism as u64).as_str());
    how.append(" resume=");
    how.append(show_bool(args.resume));
    how.append(" keep_source=");
    how.append(show_bool(args.keep_source));
    how.append(" delete_source=");
    how.append(show_bool(args.delete_source));
    let mut lines: Vec<String> = Vec::new();
    push_line(&mut lines, what);
    push_line(&mut lines, how);
    push_line(&mut lines, HISTORY_WARNING.to_owned());
    assert(crate::text::texts(lines@) =~= banner_lines(*args));
    lines
}

/// The first check of a run, before anything is shown: two equal layouts need
/// no migration.
pub fn check_layouts(from: Layout, to: Layout) -> (r: Result<(), Failure>)
    ensures
        match r {
            Ok(()) => from != to,
            Err(f) => from == to && f.code == 2 && f.message@ == same_layout_text(from),
        },
{
    if from == to {
        let mut message = joined("--from and --to are both `", from.name());
        message.append(
            "`. Same-layout migrations are no-ops; use the engine directly to copy data. Aborting.",
        );
        return Err(Failure { code: 2, message });
    }
    Ok(())
}

/// The second check of a run, behind the banner: only a POSIX table can be
/// read.
pub fn check_source(from: Layout) -> (r: Result<(), Failure>)
    ensures
        match r {
            Ok(()) => from == Layout::Posix,
            Err(f) => from == Layout::ObjectStore && f.code == 3 && f.message@ == SOURCE_PENDING@,
        },
{
    match from {
        Layout::ObjectStore => Err(Failure { code: 3, message: SOURCE_PENDING.to_owned() }),
        Layout::Posix => Ok(()),
    }
}

/// The failure of a run whose runtime did not start.
pub fn runtime_failure(cause: &str) -> (r: Failure)
    ensures
        r.code == 4,
        r.message@ == "tokio runtime: "@ + cause@,
{
    Failure { code: 4, message: joined("tokio runtime: ", cause) }
}

/// The failure of a run that could not read its source.
pub fn source_failure(cause: &str) -> (r: Failure)
    ensures
        r.code == 5,
        r.message@ == "build migration plan: "@ + cause@,
{
    Failure { code: 5, message: joined("build migration plan: ", cause) }
}

/// How a run ends once its plan was shown: a dry run with a last line to
/// show. Nothing can be written yet, so any other run fails rather than
/// ending as if it had.
pub fn conclude(args: &MigrateArgs, files: usize) -> (r: Result<String, Failure>)
    ensures
        match r {
            Ok(line) => {
                &&& args.dry_run
                &&& line@ == "dry run complete — "@ + crate::text::dec_nat(files as nat)
                    + " files would be migrated."@
            },
            Err(f) => {
                &&& !args.dry_run
                &&& f.code == if args.to == Layout::ObjectStore {
                    6i32
                } else {
                    99i32
                }
                &&& f.message@ == if args.to == Layout::ObjectStore {
                    DESTINATION_PENDING@
                } else {
                    "unhandled destination layout `"@ + args.to.label()
                        + "`. This is a bug — please report."@
                }
            },
        },
{
    if matches!(args.to, Layout::ObjectStore) && !args.dry_run {
        return Err(Failure { code: 6, message: DESTINATION_PENDING.to_owned() });
    }
    if args.dry_run {
        let mut line = joined("dry run complete — ", dec_u64(files as u64).as_str());
        line.append(" files would be migrated.");
        return Ok(line);
    }
    let mut message = joined("unhandled destination layout `", args.to.name());
    message.append("`. This is a bug — please report.");
    Err(Failure { code: 99, message })
}

/// A plan takes the entries one by one and in order: each that is not deleted,
/// and no other.
pub proof fn law_live_entries_are_taken_in_order(
    entries: Seq<ManifestEntry>,
    e: ManifestEntry,
)
    ensures
        live_entries(Seq::empty()).len() == 0,
        e.status@ != "deleted"@ ==> live_entries(entries.push(e)) == live_entries(entries).push(e),
        e.status@ == "deleted"@ ==> live_entries(entries.push(e)) == live_entries(entries),
{
    assert(entries.push(e).drop_last() =~= entries);
}

/// What a plan says of a file is its path, its size, its rows and its deletion
/// vector, each under its own name.
pub proof fn law_planned_entry_shows_its_file(e: ManifestEntry, p: PlanEntry)
    ensures
        planned(e).path == e.path@,
        planned(e).bytes == e.meta.file_size,
        planned(e).num_rows == e.meta.num_rows,
        planned(e).dv_path is Some <==> e.dv_path is Some,
        e.dv_path is Some ==> planned(e).dv_path->0 == e.dv_path->0@,
        p@.path == p.path@,
        p@.bytes == p.bytes,
        p@.num_rows == p.num_rows,
        p@.dv_path is Some <==> p.dv_path is Some,
        p.dv_path is Some ==> p@.dv_path->0 == p.dv_path->0@,
{
}

/// Each file adds its own bytes, and those of its deletion vector where that
/// has any.
pub proof fn law_each_file_adds_its_bytes(entries: Seq<ManifestEntry>, e: ManifestEntry)
    ensures
        sum_of_bytes(Seq::empty()) == 0,
        e.dv_length is None || e.dv_length->0 <= 0 ==> sum_of_bytes(entries.push(e))
            == sum_of_bytes(entries) + e.meta.file_size,
        e.dv_length matches Some(n) && n > 0 ==> sum_of_bytes(entries.push(e)) == sum_of_bytes(
            entries,
        ) + e.meta.file_size + e.dv_length->0,
{
    assert(entries.push(e).drop_last() =~= entries);
}

/// Each file adds its own rows, and counts once where it has a deletion
/// vector.
pub proof fn law_each_file_adds_its_rows(files: Seq<PlanEntry>, f: PlanEntry)
    ensures
        sum_of_rows(Seq::empty()) == 0,
        sum_of_rows(files.push(f)) == sum_of_rows(files) + f.num_rows,
        count_with_dv(Seq::empty()) == 0,
        f.dv_path is Some ==> count_with_dv(files.push(f)) == count_with_dv(files) + 1,
        f.dv_path is None ==> count_with_dv(files.push(f)) == count_with_dv(files),
{
    assert(files.push(f).drop_last() =~= files);
}

/// Files are shown one for one; of those that are named, the first five come
/// in order, each with its path and its size.
pub proof fn law_first_five_files_are_named(files: Seq<PlanEntry>, i: int)
    requires
        0 <= i < files.len(),
    ensures
        plan_views(files).len() == files.len(),
        plan_views(files)[i] == files[i]@,
        files.len() <= 5 ==> sample_lines(files).len() == files.len(),
        files.len() > 5 ==> sample_lines(files).len() == 5,
        i < 5 ==> sample_lines(files)[i].subrange(4, 4 + files[i].path@.len() as int)
            == files[i].path@,
        i < 5 ==> crate::text::digits_value(
            sample_lines(files)[i].subrange(
                6 + files[i].path@.len() as int,
                sample_lines(files)[i].len() - 7,
            ),
        ) == files[i].bytes,
{
    reveal_strlit("    ");
    reveal_strlit(" (");
    reveal_strlit(" bytes)");
    let f = files[i];
    let line = file_line(f);
    let number = crate::text::dec_nat(f.bytes as nat);
    let n = f.path@.len() as int;
    crate::text::lemma_dec_nat_digits(f.bytes as nat);
    assert(line.subrange(4, 4 + n) =~= f.path@);
    assert(line.subrange(6 + n, line.len() - 7) =~= number);
}

/// What an operator is shown of a plan: its snapshot, its table, the numbers
/// of its files, its rows and its bytes, in this order behind their names; a
/// line on deletion vectors exactly where there are any; a line for each file
/// that is named; and at the end, for a dry run alone, that nothing is
/// written.
pub proof fn law_report_shows_the_plan(plan: MigrationPlan, args: MigrateArgs, mib: Seq<char>)
    ensures
        ({
            let lines = report(plan, args, mib);
            let files = plan.data_files@;
            let dvs = count_with_dv(files);
            let extra: int = if dvs > 0 {
                1
            } else {
                0
            };
            let named: int = if files.len() < 5 {
                files.len() as int
            } else {
                5
            };
            &&& lines.len() == 14 + extra + named + (if args.dry_run {
                1int
            } else {
                0
            })
            &&& ends_in(lines[2], crate::text::dec_int(plan.source_snapshot_id as int))
            &&& ends_in(lines[3], plan.source_table_uuid@)
            &&& ends_in(lines[4], crate::text::dec_nat(files.len()))
            &&& ends_in(lines[5], crate::text::dec_nat(sum_of_rows(files) as nat))
            &&& ends_in(
                lines[6],
                crate::text::dec_nat(plan.total_bytes as nat) + " ("@ + mib + " MiB)"@,
            )
            &&& dvs > 0 ==> ends_in(lines[7], crate::text::dec_nat(dvs))
            &&& forall|i: int|
                0 <= i < named ==> #[trigger] lines[8 + extra + i] == file_line(files[i])
            &&& ends_in(lines[10 + extra + named], args.dst@)
            &&& args.dry_run ==> lines.last() == "DRY RUN: no bytes written to destination."@
        }),
{
    let lines = report(plan, args, mib);
    let files = plan.data_files@;
    let dvs = count_with_dv(files);
    let extra: int = if dvs > 0 {
        1
    } else {
        0
    };
    let named = sample_lines(files).len() as int;
    lemma_ends_in("  source snapshot id: "@, crate::text::dec_int(plan.source_snapshot_id as int));
    lemma_ends_in("  source table uuid:  "@, plan.source_table_uuid@);
    lemma_ends_in("  data files:         "@, crate::text::dec_nat(files.len()));
    lemma_ends_in(
        "  total rows:         "@,
        crate::text::dec_nat(sum_of_rows(files) as nat),
    );
    let bytes = crate::text::dec_nat(plan.total_bytes as nat);
    lemma_ends_in("  total bytes:        "@, bytes + " ("@ + mib + " MiB)"@);
    assert(lines[6] =~= "  total bytes:        "@ + (bytes + " ("@ + mib + " MiB)"@));
    lemma_ends_in("  files with DV:      "@, crate::text::dec_nat(dvs));
    lemma_ends_in("  dst:                "@, args.dst@);
    assert forall|i: int| 0 <= i < named implies #[trigger] lines[8 + extra + i] == file_line(
        files[i],
    ) by {
        assert(lines[8 + extra + i] == sample_lines(files)[i]);
    }
    assert(lines[10 + extra + named] == "  dst:                "@ + args.dst@);
}

/// Whether a line ends with a text.
pub open spec fn ends_in(line: Seq<char>, text: Seq<char>) -> bool {
    exists|head: Seq<char>| line == #[trigger] (head + text)
}

proof fn lemma_ends_in(head: Seq<char>, text: Seq<char>)
    ensures
        ends_in(head + text, text),
{
}

/// The two layouts have names of their own, and a migration from a layout to
/// itself is refused by that name.
pub proof fn law_layout_names(layout: Layout)
    ensures
        layout is Posix ==> layout.label() == "Posix"@,
        layout is ObjectStore ==> layout.label() == "ObjectStore"@,
        Layout::Posix.label() != Layout::ObjectStore.label(),
{
    reveal_strlit("Posix");
    reveal_strlit("ObjectStore");
    assert("Posix"@.len() == 5);
    assert("ObjectStore"@.len() == 11);
}

/// What was asked for is repeated in two lines and followed by the warning:
/// the layouts and the places, then each flag with its value.
pub proof fn law_banner_repeats_what_was_asked(args: MigrateArgs)
    ensures
        banner_lines(args).len() == 3,
        banner_lines(args)[2] == HISTORY_WARNING@,
        crate::text::contains_text(
            banner_lines(args)[0],
            "--from "@ + args.from.label() + " --src "@ + args.src@ + " --to "@ + args.to.label()
                + " --dst "@ + args.dst@,
        ),
        crate::text::contains_text(
            banner_lines(args)[1],
            "dry_run="@ + (if args.dry_run {
                "true"@
            } else {
                "false"@
            }) + " verify="@ + (if args.verify {
                "true"@
            } else {
                "false"@
            }) + " copy_parallelism="@ + crate::text::dec_nat(args.copy_parallelism as nat),
        ),
        crate::text::contains_text(
            banner_lines(args)[1],
            " resume="@ + (if args.resume {
                "true"@
            } else {
                "false"@
            }) + " keep_source="@ + (if args.keep_source {
                "true"@
            } else {
                "false"@
            }) + " delete_source="@ + (if args.delete_source {
                "true"@
            } else {
                "false"@
            }),
        ),
{
    reveal_strlit("merutable-migrate: --from ");
    reveal_strlit("merutable-migrate: ");
    reveal_strlit("--from ");
    reveal_strlit("  dry_run=");
    reveal_strlit("  ");
    reveal_strlit("dry_run=");
    let none = Seq::<char>::empty();
    let lead = "merutable-migrate: "@;
    let from = "--from "@;
    let src = " --src "@;
    let to = " --to "@;
    let dst = " --dst "@;
    assert("merutable-migrate: --from "@ =~= lead + from);
    lemma_regroup(lead, from, args.from.label());
    lemma_regroup(lead, from + args.from.label(), src);
    lemma_regroup(lead, from + args.from.label() + src, args.src@);
    lemma_regroup(lead, from + args.from.label() + src + args.src@, to);
    lemma_regroup(lead, from + args.from.label() + src + args.src@ + to, args.to.label());
    lemma_regroup(lead, from + args.from.label() + src + args.src@ + to + args.to.label(), dst);
    lemma_regroup(lead, from + args.from.label() + src + args.src@ + to + args.to.label() + dst, args.dst@);
    let asked = from + args.from.label() + src + args.src@ + to + args.to.label() + dst + args.dst@;
    assert(lead + asked + none =~= lead + asked);
    crate::text::lemma_contains_text(lead, asked, none);
    let gap = "  "@;
    let dry = "dry_run="@;
    let verify = " verify="@;
    let copies = " copy_parallelism="@;
    let number = crate::text::dec_nat(args.copy_parallelism as nat);
    let b1 = shown_bool(args.dry_run);
    let b2 = shown_bool(args.verify);
    assert("  dry_run="@ =~= gap + dry);
    lemma_regroup(gap, dry, b1);
    lemma_regroup(gap, dry + b1, verify);
    lemma_regroup(gap, dry + b1 + verify, b2);
    lemma_regroup(gap, dry + b1 + verify + b2, copies);
    lemma_regroup(gap, dry + b1 + verify + b2 + copies, number);
    let first = dry + b1 + verify + b2 + copies + number;
    let start = gap + first;
    let resume = " resume="@;
    let keep = " keep_source="@;
    let delete = " delete_source="@;
    let b3 = shown_bool(args.resume);
    let b4 = shown_bool(args.keep_source);
    let b5 = shown_bool(args.delete_source);
    lemma_regroup(start, resume, b3);
    lemma_regroup(start, resume + b3, keep);
    lemma_regroup(start, resume + b3 + keep, b4);
    lemma_regroup(start, resume + b3 + keep + b4, delete);
    lemma_regroup(start, resume + b3 + keep + b4 + delete, b5);
    let second = resume + b3 + keep + b4 + delete + b5;
    crate::text::lemma_contains_text(gap, first, second);
    assert(start + second + none =~= start + second);
    crate::text::lemma_contains_text(start, second, none);
}

/// Texts can be joined in any grouping.
proof fn lemma_regroup(a: Seq<char>, b: Seq<char>, c: Seq<char>)
    ensures
        a + b + c == a + (b + c),
{
    assert(a + b + c =~= a + (b + c));
}

/// A migration from a layout to itself is refused by the name of the layout.
pub proof fn law_same_layout_is_named(layout: Layout)
    ensures
        crate::text::contains_text(same_layout_text(layout), layout.label()),
{
    crate::text::lemma_contains_text(
        "--from and --to are both `"@,
        layout.label(),
        "`. Same-layout migrations are no-ops; use the engine directly to copy data. Aborting."@,
    );
}

} // verus!
