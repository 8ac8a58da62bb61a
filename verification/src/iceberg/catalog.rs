//! The file-system catalog: layout on disk, what opening finds, and the order
//! of the steps that make a commit durable.
//!
//! ```text
//! {base}/metadata/v{N}.metadata.json    one manifest per snapshot
//! {base}/data/L{n}/{id}.parquet         data files
//! {base}/data/L{n}/{id}.dv-{N}.puffin   deletion vectors
//! {base}/version-hint.text              the current snapshot
//! ```

use vstd::prelude::*;
use vstd::string::*;

use crate::paths::{join, parent};
use crate::text::{chars_of, dec_i64, joined, parse_trimmed_i64};
use crate::types::error::{ErrorView, MeruError, Result};
use crate::types::level::Level;

verus! {

/// The file name of the manifest of a snapshot.
pub open spec fn metadata_name(version: i64) -> Seq<char> {
    "v"@ + crate::text::dec_int(version as int) + ".metadata.json"@
}

/// The file name of the manifest of a snapshot.
pub fn metadata_file_name(version: i64) -> (r: String)
    ensures
        r@ == metadata_name(version),
{
    let mut r = joined("v", dec_i64(version).as_str());
    r.append(".metadata.json");
    r
}

/// The directory of manifests under a base directory.
pub open spec fn metadata_dir(base: Seq<char>) -> Seq<char> {
    crate::paths::joined_path(base, "metadata"@)
}

/// The path of a snapshot's manifest under a base directory.
pub open spec fn metadata_path(base: Seq<char>, version: i64) -> Seq<char> {
    crate::paths::joined_path(metadata_dir(base), metadata_name(version))
}

/// The path of a snapshot's manifest under a base directory.
pub fn metadata_file_path(base: &str, version: i64) -> (r: String)
    ensures
        r@ == metadata_path(base@, version),
{
    join(join(base, "metadata").as_str(), metadata_file_name(version).as_str())
}

/// The path of the version hint under a base directory.
pub open spec fn hint_path(base: Seq<char>) -> Seq<char> {
    crate::paths::joined_path(base, "version-hint.text"@)
}

/// The path of the version hint while it is being written.
pub open spec fn tmp_hint_path(base: Seq<char>) -> Seq<char> {
    crate::paths::joined_path(base, "version-hint.text.tmp"@)
}

/// Whether `s` begins with `p`.
pub open spec fn begins_with(s: Seq<char>, p: Seq<char>) -> bool {
    s.len() >= p.len() && s.take(p.len() as int) == p
}

/// Whether `s` ends with `p`.
pub open spec fn ends_with(s: Seq<char>, p: Seq<char>) -> bool {
    s.len() >= p.len() && s.skip(s.len() - p.len()) == p
}

/// Whether a file name is that of some snapshot's manifest.
pub open spec fn names_snapshot(name: Seq<char>) -> bool {
    begins_with(name, "v"@) && ends_with(name, ".metadata.json"@)
}

/// Whether `chars` holds `part` at `from`.
fn holds_part(chars: &Vec<char>, part: &Vec<char>, from: usize) -> (r: bool)
    requires
        from + part@.len() <= chars@.len(),
    ensures
        r == (chars@.subrange(from as int, from + part@.len()) == part@),
{
    let n: usize = chars.len();
    let mut i: usize = 0;
    while i < part.len()
        invariant
            i <= part@.len(),
            n == chars@.len(),
            from + part@.len() <= n,
            forall|k: int| 0 <= k < i ==> chars@[from + k] == part@[k],
        decreases part@.len() - i,
    {
        if chars[from + i] != part[i] {
            assert(chars@.subrange(from as int, from + part@.len())[i as int] != part@[i as int]);
            return false;
        }
        i = i + 1;
    }
    assert(chars@.subrange(from as int, from + part@.len()) =~= part@);
    true
}

/// Whether a file name is that of some snapshot's manifest.
pub fn is_snapshot_file(name: &str) -> (r: bool)
    ensures
        r == names_snapshot(name@),
{
    let chars = chars_of(name);
    let head = chars_of("v");
    let tail = chars_of(".metadata.json");
    if chars.len() < head.len() || chars.len() < tail.len() {
        return false;
    }
    let n: usize = chars.len();
    proof {
        assert(chars@.subrange(0, head@.len() as int) =~= name@.take(head@.len() as int));
        assert(chars@.subrange(n - tail@.len(), n as int) =~= name@.skip(n - tail@.len()));
    }
    holds_part(&chars, &head, 0) && holds_part(&chars, &tail, n - tail.len())
}

/// The version that a hint names. `complaint` is the error for a hint that
/// is no number.
pub fn parse_version_hint(hint: &str, complaint: &str) -> (r: Result<i64>)
    ensures
        match r {
            Ok(v) => crate::text::parsed_i64(crate::text::trimmed(hint@)) == Some(v),
            Err(e) => crate::text::parsed_i64(crate::text::trimmed(hint@)) is None && e@
                == ErrorView::Corruption(complaint@),
        },
{
    match parse_trimmed_i64(hint) {
        Some(v) => Ok(v),
        None => Err(MeruError::Corruption(complaint.to_owned())),
    }
}

/// What opening a catalog does.
#[derive(Debug)]
pub enum OpenPlan {
    /// Load this snapshot; the next commit takes the next version.
    Load { version: i64, metadata_path: String, next_version: i64 },
    /// Start an empty table; the first commit takes version 1.
    Fresh { next_version: i64 },
}

/// Whether one of the names is that of a snapshot's manifest.
pub open spec fn has_snapshots(names: Seq<String>) -> bool {
    exists|i: int| 0 <= i < names.len() && names_snapshot((#[trigger] names[i])@)
}

/// The error for a lost version hint.
pub open spec fn lost_hint_error(base: Seq<char>) -> ErrorView {
    ErrorView::Corruption(
        "version-hint.text is missing but "@ + metadata_dir(base)
            + "/ contains snapshot metadata files \u{2014} refusing to initialize a fresh catalog over existing data. Restore version-hint.text from backup or move the existing metadata/ directory aside."@,
    )
}

/// What opening a catalog does, given the version hint, if there is one, and
/// the names in the metadata directory. Without a hint but with snapshots,
/// starting afresh would orphan data, so that is refused.
pub fn plan_open(base: &str, hint: Option<&str>, metadata_names: &Vec<String>) -> (r: Result<
    OpenPlan,
>)
    requires
        hint matches Some(h) ==> crate::text::parsed_i64(crate::text::trimmed(h@)) != Some(
            i64::MAX,
        ),
    ensures
        match r {
            Ok(OpenPlan::Load { version, metadata_path: p, next_version }) => {
                &&& hint matches Some(h) && crate::text::parsed_i64(crate::text::trimmed(h@))
                    == Some(version)
                &&& p@ == metadata_path(base@, version)
                &&& next_version == version + 1
            },
            Ok(OpenPlan::Fresh { next_version }) => hint is None && !has_snapshots(
                metadata_names@,
            ) && next_version == 1,
            Err(e) => match hint {
                Some(h) => crate::text::parsed_i64(crate::text::trimmed(h@)) is None && e@
                    == ErrorView::Corruption("bad version-hint"@),
                None => has_snapshots(metadata_names@) && e@ == lost_hint_error(base@),
            },
        },
{
    match hint {
        Some(h) => {
            let version: i64 = match parse_version_hint(h, "bad version-hint") {
                Ok(v) => v,
                Err(e) => return Err(e),
            };
            Ok(
                OpenPlan::Load {
                    version,
                    metadata_path: metadata_file_path(base, version),
                    next_version: version + 1,
                },
            )
        },
        None => {
            let mut i: usize = 0;
            while i < metadata_names.len()
                invariant
                    i <= metadata_names@.len(),
                    hint is None,
                    forall|k: int| 0 <= k < i ==> !names_snapshot((#[trigger] metadata_names@[k])@),
                decreases metadata_names@.len() - i,
            {
                if is_snapshot_file(metadata_names[i].as_str()) {
                    let mut m = joined(
                        "version-hint.text is missing but ",
                        join(base, "metadata").as_str(),
                    );
                    m.append(
                        "/ contains snapshot metadata files \u{2014} refusing to initialize a fresh catalog over existing data. Restore version-hint.text from backup or move the existing metadata/ directory aside.",
                    );
                    return Err(MeruError::Corruption(m));
                }
                i = i + 1;
            }
            Ok(OpenPlan::Fresh { next_version: 1 })
        },
    }
}

/// What a step writes.
#[derive(Debug, Clone, Copy, PartialEq, Eq, Structural)]
pub enum Payload {
    /// The bytes of a data file.
    DataFile,
    /// The bytes of a Puffin file.
    Puffin,
    /// The new manifest.
    Manifest,
    /// The number of the new snapshot.
    Hint,
}

/// One step on the file system.
#[derive(Debug)]
pub enum FsStep {
    /// Make a directory and its parents.
    MakeDir(String),
    /// Write a file.
    Write(Payload, String),
    /// Flush a file to disk.
    SyncFile(String),
    /// Flush a directory to disk.
    SyncDir(String),
    /// Rename a file.
    Rename(String, String),
}

/// [`FsStep`] with its paths as sequences.
pub enum StepView {
    MakeDir(Seq<char>),
    Write(Payload, Seq<char>),
    SyncFile(Seq<char>),
    SyncDir(Seq<char>),
    Rename(Seq<char>, Seq<char>),
}

impl View for FsStep {
    type V = StepView;

    open spec fn view(&self) -> StepView {
        match self {
            FsStep::MakeDir(p) => StepView::MakeDir(p@),
            FsStep::Write(w, p) => StepView::Write(*w, p@),
            FsStep::SyncFile(p) => StepView::SyncFile(p@),
            FsStep::SyncDir(p) => StepView::SyncDir(p@),
            FsStep::Rename(a, b) => StepView::Rename(a@, b@),
        }
    }
}

/// The views of a row of steps.
pub open spec fn step_views(s: Seq<FsStep>) -> Seq<StepView> {
    Seq::new(s.len(), |i: int| s[i]@)
}

/// The steps that make a data file durable, before any manifest names it.
pub open spec fn data_file_steps(dir: Seq<char>, path: Seq<char>) -> Seq<StepView> {
    seq![
        StepView::MakeDir(dir),
        StepView::Write(Payload::DataFile, path),
        StepView::SyncFile(path),
        StepView::SyncDir(dir),
    ]
}

/// The steps that make a Puffin file durable: directory, content, content on
/// disk, name on disk.
pub open spec fn puffin_steps(path: Seq<char>) -> Seq<StepView> {
    match crate::paths::parent_of(path) {
        Some(dir) => seq![
            StepView::MakeDir(dir),
            StepView::Write(Payload::Puffin, path),
            StepView::SyncFile(path),
            StepView::SyncDir(dir),
        ],
        None => seq![StepView::Write(Payload::Puffin, path), StepView::SyncFile(path)],
    }
}

/// The steps that make a manifest the current one: the manifest and its name
/// are on disk before the hint names it, and the hint is replaced in one go.
pub open spec fn manifest_steps(base: Seq<char>, version: i64) -> Seq<StepView> {
    seq![
        StepView::Write(Payload::Manifest, metadata_path(base, version)),
        StepView::SyncFile(metadata_path(base, version)),
        StepView::SyncDir(metadata_dir(base)),
        StepView::Write(Payload::Hint, tmp_hint_path(base)),
        StepView::SyncFile(tmp_hint_path(base)),
        StepView::Rename(tmp_hint_path(base), hint_path(base)),
        StepView::SyncDir(base),
    ]
}

/// A file-system catalog: where it lies and which version comes next.
#[derive(Debug)]
pub struct IcebergCatalog {
    base_path: String,
    next_version: i64,
}

impl IcebergCatalog {
    /// The directory of the table.
    pub closed spec fn base(&self) -> Seq<char> {
        self.base_path@
    }

    /// The version that the next commit takes.
    pub closed spec fn next(&self) -> i64 {
        self.next_version
    }

    /// The catalog that an open found.
    pub fn opened(base_path: String, plan: &OpenPlan) -> (r: Self)
        ensures
            r.base() == base_path@,
            r.next() == match *plan {
                OpenPlan::Load { version, metadata_path, next_version } => next_version,
                OpenPlan::Fresh { next_version } => next_version,
            },
    {
        let next_version: i64 = match plan {
            OpenPlan::Load { version, metadata_path, next_version } => *next_version,
            OpenPlan::Fresh { next_version } => *next_version,
        };
        IcebergCatalog { base_path, next_version }
    }

    /// The directory of the table.
    pub fn base_path(&self) -> (r: &str)
        ensures
            r@ == self.base(),
    {
        self.base_path.as_str()
    }

    /// The snapshot that the next commit makes.
    pub fn next_snapshot_id(&self) -> (r: i64)
        ensures
            r == self.next(),
    {
        self.next_version
    }

    /// The path of a data file.
    pub fn data_file_path(&self, level: Level, file_id: &str) -> (r: String)
        ensures
            r@ == crate::paths::joined_path(
                crate::paths::joined_path(
                    crate::paths::joined_path(self.base(), "data"@),
                    level.name(),
                ),
                file_id@ + ".parquet"@,
            ),
    {
        join(self.level_dir(level).as_str(), joined(file_id, ".parquet").as_str())
    }

    /// The directory of a level's data files.
    pub fn level_dir(&self, level: Level) -> (r: String)
        ensures
            r@ == crate::paths::joined_path(
                crate::paths::joined_path(self.base(), "data"@),
                level.name(),
            ),
    {
        join(join(self.base_path.as_str(), "data").as_str(), level.to_string().as_str())
    }

    /// The steps that store a new data file. Not every file system can sync a
    /// directory: the last step may fail without harm.
    pub fn data_file_plan(&self, level: Level, file_id: &str) -> (r: Vec<FsStep>)
        ensures
            step_views(r@) == data_file_steps(
                crate::paths::joined_path(
                    crate::paths::joined_path(self.base(), "data"@),
                    level.name(),
                ),
                crate::paths::joined_path(
                    crate::paths::joined_path(
                        crate::paths::joined_path(self.base(), "data"@),
                        level.name(),
                    ),
                    file_id@ + ".parquet"@,
                ),
            ),
    {
        let dir = self.level_dir(level);
        let path = self.data_file_path(level, file_id);
        let mut r: Vec<FsStep> = Vec::new();
        let ghost wanted = data_file_steps(dir@, path@);
        r.push(FsStep::MakeDir(dir.clone()));
        r.push(FsStep::Write(Payload::DataFile, path.clone()));
        r.push(FsStep::SyncFile(path));
        r.push(FsStep::SyncDir(dir));
        assert(step_views(r@) =~= wanted);
        r
    }

    /// The path of a file that the manifest names.
    pub fn absolute(&self, relative: &str) -> (r: String)
        ensures
            r@ == crate::paths::joined_path(self.base(), relative@),
    {
        join(self.base_path.as_str(), relative)
    }

    /// The steps that store a Puffin file of this commit.
    pub fn puffin_plan(&self, relative: &str) -> (r: Vec<FsStep>)
        ensures
            step_views(r@) == puffin_steps(crate::paths::joined_path(self.base(), relative@)),
    {
        let path = self.absolute(relative);
        let mut r: Vec<FsStep> = Vec::new();
        match parent(path.as_str()) {
            Some(dir) => {
                r.push(FsStep::MakeDir(dir.clone()));
                r.push(FsStep::Write(Payload::Puffin, path.clone()));
                r.push(FsStep::SyncFile(path));
                r.push(FsStep::SyncDir(dir));
            },
            None => {
                r.push(FsStep::Write(Payload::Puffin, path.clone()));
                r.push(FsStep::SyncFile(path));
            },
        }
        assert(step_views(r@) =~= puffin_steps(
            crate::paths::joined_path(self.base(), relative@),
        ));
        r
    }

    /// The steps that make the new manifest the current one, once every
    /// Puffin file that it names is stored.
    pub fn manifest_plan(&self) -> (r: Vec<FsStep>)
        ensures
            step_views(r@) == manifest_steps(self.base(), self.next()),
    {
        let base: &str = self.base_path.as_str();
        let meta = metadata_file_path(base, self.next_version);
        let hint = join(base, "version-hint.text");
        let tmp = join(base, "version-hint.text.tmp");
        let mut r: Vec<FsStep> = Vec::new();
        r.push(FsStep::Write(Payload::Manifest, meta.clone()));
        r.push(FsStep::SyncFile(meta));
        r.push(FsStep::SyncDir(join(base, "metadata")));
        r.push(FsStep::Write(Payload::Hint, tmp.clone()));
        r.push(FsStep::SyncFile(tmp.clone()));
        r.push(FsStep::Rename(tmp, hint));
        r.push(FsStep::SyncDir(base.to_owned()));
        assert(step_views(r@) =~= manifest_steps(self.base(), self.next()));
        r
    }

    /// The text of the hint for the new snapshot.
    pub fn hint_text(&self) -> (r: String)
        ensures
            r@ == crate::text::dec_int(self.next() as int),
    {
        dec_i64(self.next_version)
    }

    /// Moves on after a commit.
    pub fn committed(&mut self)
        requires
            old(self).next() < i64::MAX,
        ensures
            final(self).base() == old(self).base(),
            final(self).next() == old(self).next() + 1,
    {
        self.next_version = self.next_version + 1;
    }

    /// Moves to the snapshot that a refresh found: its hint was `version`.
    pub fn refreshed(&mut self, version: i64)
        requires
            version < i64::MAX,
        ensures
            final(self).base() == old(self).base(),
            final(self).next() == version + 1,
    {
        self.next_version = version + 1;
    }
}

/// At every point of a commit, a hint that was replaced names a manifest
/// whose content and whose directory entry are on disk already.
pub proof fn law_hint_names_a_durable_manifest(base: Seq<char>, version: i64, done: int)
    requires
        0 <= done <= manifest_steps(base, version).len(),
        manifest_steps(base, version).take(done).contains(
            StepView::Rename(tmp_hint_path(base), hint_path(base)),
        ),
    ensures
        ({
            let steps = manifest_steps(base, version).take(done);
            &&& steps.contains(StepView::SyncFile(metadata_path(base, version)))
            &&& steps.contains(StepView::SyncDir(metadata_dir(base)))
            &&& steps.contains(StepView::SyncFile(tmp_hint_path(base)))
        }),
{
    let all = manifest_steps(base, version);
    let steps = all.take(done);
    let rename = StepView::Rename(tmp_hint_path(base), hint_path(base));
    let i = choose|i: int| 0 <= i < steps.len() && steps[i] == rename;
    assert(all[i] == rename);
    assert(i == 5);
    assert(steps[1] == all[1]);
    assert(steps[2] == all[2]);
    assert(steps[4] == all[4]);
}

/// Reading the hint that a commit wrote gives the committed snapshot.
pub proof fn law_hint_roundtrip(version: i64)
    ensures
        crate::text::parsed_i64(crate::text::trimmed(crate::text::dec_int(version as int)))
            == Some(version),
{
    let s = crate::text::dec_int(version as int);
    let m: nat = if version < 0 {
        (-version) as nat
    } else {
        version as nat
    };
    crate::text::lemma_dec_nat_digits(m);
    crate::text::lemma_parsed_dec_int(version);
    let d = crate::text::dec_nat(m);
    assert(crate::text::is_digit(d[d.len() - 1]));
    assert(crate::text::is_digit(d[0]));
    assert(s[s.len() - 1] == d[d.len() - 1]);
    assert(!crate::text::is_whitespace(s[0]));
    assert(crate::text::trimmed_start(s) == s);
    assert(crate::text::trimmed_end(s) == s);
}

/// Where an export goes.
#[derive(Debug)]
pub struct ExportPlan {
    /// The location of the table that the exported metadata names.
    pub table_location: String,
    /// The directory of the exported manifest.
    pub metadata_dir: String,
    /// The exported manifest.
    pub out_path: String,
    /// The exported version hint.
    pub hint_path: String,
    /// The text of the hint.
    pub hint_text: String,
}

/// Where exporting a snapshot goes: a manifest and a hint under `target`, with
/// the table at its canonical path.
pub fn plan_export(canonical_base: &str, target: &str, snapshot_id: i64) -> (r: ExportPlan)
    ensures
        r.table_location@ == "file://"@ + canonical_base@,
        r.metadata_dir@ == metadata_dir(target@),
        r.out_path@ == metadata_path(target@, snapshot_id),
        r.hint_path@ == hint_path(target@),
        r.hint_text@ == crate::text::dec_int(snapshot_id as int),
{
    ExportPlan {
        table_location: joined("file://", canonical_base),
        metadata_dir: join(target, "metadata"),
        out_path: metadata_file_path(target, snapshot_id),
        hint_path: join(target, "version-hint.text"),
        hint_text: dec_i64(snapshot_id),
    }
}

/// The name of a snapshot's manifest has no slash.
proof fn lemma_metadata_name(version: i64)
    ensures
        metadata_name(version).len() > 1,
        forall|i: int|
            0 <= i < metadata_name(version).len() ==> #[trigger] metadata_name(version)[i] != '/',
{
    reveal_strlit("v");
    reveal_strlit(".metadata.json");
    let m: nat = if version < 0 {
        (-version) as nat
    } else {
        version as nat
    };
    let d = crate::text::dec_nat(m);
    let s = crate::text::dec_int(version as int);
    crate::text::lemma_dec_nat_digits(m);
    let name = metadata_name(version);
    assert forall|i: int| 0 <= i < s.len() implies #[trigger] s[i] != '/' by {
        if version < 0 {
            if i > 0 {
                assert(s[i] == d[i - 1]);
                assert(crate::text::is_digit(d[i - 1]));
            }
        } else {
            assert(crate::text::is_digit(d[i]));
        }
    }
    assert forall|i: int| 0 <= i < name.len() implies #[trigger] name[i] != '/' by {
        if i == 0 {
            assert(name[i] == "v"@[0]);
        } else if i < 1 + s.len() {
            assert(name[i] == s[i - 1]);
        } else {
            assert(name[i] == ".metadata.json"@[i - 1 - s.len()]);
        }
    }
}

/// The manifests of a table lie in the directory `metadata` of its directory,
/// each under a name of its version, and the hint beside that directory. The
/// hint is written under another name than its own.
pub proof fn law_layout_of_a_table(base: Seq<char>, version: i64)
    requires
        base.len() > 0,
        base.last() != '/',
        base.len() > 1 && base.last() == '.' ==> base[base.len() - 2] != '/',
    ensures
        crate::paths::parent_of(metadata_path(base, version)) == Some(metadata_dir(base)),
        crate::paths::last_component(metadata_path(base, version)) == "v"@ + crate::text::dec_int(
            version as int,
        ) + ".metadata.json"@,
        crate::paths::parent_of(metadata_dir(base)) == Some(base),
        crate::paths::last_component(metadata_dir(base)) == "metadata"@,
        crate::paths::parent_of(hint_path(base)) == Some(base),
        crate::paths::last_component(hint_path(base)) == "version-hint.text"@,
        crate::paths::parent_of(tmp_hint_path(base)) == Some(base),
        tmp_hint_path(base) != hint_path(base),
{
    reveal_strlit("metadata");
    reveal_strlit("version-hint.text");
    reveal_strlit("version-hint.text.tmp");
    let dir = metadata_dir(base);
    let name = metadata_name(version);
    lemma_metadata_name(version);
    reveal_strlit("v");
    assert(name[0] == "v"@[0]);
    assert(dir =~= base + seq!['/'] + "metadata"@);
    assert(dir.last() == 'a');
    assert(metadata_path(base, version) =~= dir + seq!['/'] + name);
    assert(hint_path(base) =~= base + seq!['/'] + "version-hint.text"@);
    assert(tmp_hint_path(base) =~= base + seq!['/'] + "version-hint.text.tmp"@);
    assert(forall|i: int| 0 <= i < "metadata"@.len() ==> #[trigger] "metadata"@[i] != '/');
    assert(forall|i: int|
        0 <= i < "version-hint.text"@.len() ==> #[trigger] "version-hint.text"@[i] != '/');
    assert(forall|i: int|
        0 <= i < "version-hint.text.tmp"@.len() ==> #[trigger] "version-hint.text.tmp"@[i] != '/');
    crate::paths::law_parent_and_name_of_a_file(dir, name);
    crate::paths::law_parent_and_name_of_a_file(base, "metadata"@);
    crate::paths::law_parent_and_name_of_a_file(base, "version-hint.text"@);
    crate::paths::law_parent_and_name_of_a_file(base, "version-hint.text.tmp"@);
    assert(tmp_hint_path(base).len() != hint_path(base).len());
}

/// Opening knows the manifest of every version by its name, and versions do
/// not share a name.
pub proof fn law_every_manifest_is_known_by_its_name(a: i64, b: i64)
    ensures
        names_snapshot(metadata_name(a)),
        metadata_name(a) == metadata_name(b) ==> a == b,
{
    reveal_strlit("v");
    reveal_strlit(".metadata.json");
    let x = metadata_name(a);
    let y = metadata_name(b);
    let da = crate::text::dec_int(a as int);
    let db = crate::text::dec_int(b as int);
    assert(x.take(1) =~= "v"@);
    assert(x.skip(x.len() - 14) =~= ".metadata.json"@);
    if x == y {
        assert(x.subrange(1, x.len() - 14) =~= da);
        assert(y.subrange(1, y.len() - 14) =~= db);
        crate::text::lemma_dec_int_injective(a as int, b as int);
    }
}

/// A text begins with a part exactly when it is that part and something behind
/// it, and ends with a part exactly when it is something and that part behind
/// it.
pub proof fn law_beginnings_and_ends(part: Seq<char>, rest: Seq<char>, s: Seq<char>)
    ensures
        begins_with(part + rest, part),
        ends_with(rest + part, part),
        begins_with(s, part) ==> s == part + s.skip(part.len() as int),
        ends_with(s, part) ==> s == s.take(s.len() - part.len()) + part,
{
    assert((part + rest).take(part.len() as int) =~= part);
    assert((rest + part).skip(rest.len() as int) =~= part);
    assert((rest + part).len() - part.len() == rest.len());
    if begins_with(s, part) {
        assert(s =~= part + s.skip(part.len() as int)) by {
            assert(s =~= s.take(part.len() as int) + s.skip(part.len() as int));
        }
    }
    if ends_with(s, part) {
        let k = s.len() - part.len();
        assert(s =~= s.take(k) + s.skip(k));
    }
}

/// A directory holds snapshots exactly when one of its names begins with `v`
/// and ends with `.metadata.json`.
pub proof fn law_snapshots_are_known_by_their_names(names: Seq<String>)
    ensures
        has_snapshots(names) <==> exists|i: int|
            0 <= i < names.len() && begins_with((#[trigger] names[i])@, "v"@) && ends_with(
                names[i]@,
                ".metadata.json"@,
            ),
{
    if has_snapshots(names) {
        let i = choose|i: int| 0 <= i < names.len() && names_snapshot((#[trigger] names[i])@);
        assert(begins_with(names[i]@, "v"@));
    }
    if exists|i: int|
        0 <= i < names.len() && begins_with((#[trigger] names[i])@, "v"@) && ends_with(
            names[i]@,
            ".metadata.json"@,
        ) {
        let i = choose|i: int|
            0 <= i < names.len() && begins_with((#[trigger] names[i])@, "v"@) && ends_with(
                names[i]@,
                ".metadata.json"@,
            );
        assert(names_snapshot(names[i]@));
    }
}

/// The view of a step shows what it does and to which files, and steps are
/// shown one for one.
pub proof fn law_step_views_show_every_step(steps: Seq<FsStep>, i: int)
    requires
        0 <= i < steps.len(),
    ensures
        step_views(steps).len() == steps.len(),
        step_views(steps)[i] == steps[i]@,
        steps[i] matches FsStep::MakeDir(p) ==> steps[i]@ == StepView::MakeDir(p@),
        steps[i] matches FsStep::Write(w, p) ==> steps[i]@ == StepView::Write(w, p@),
        steps[i] matches FsStep::SyncFile(p) ==> steps[i]@ == StepView::SyncFile(p@),
        steps[i] matches FsStep::SyncDir(p) ==> steps[i]@ == StepView::SyncDir(p@),
        steps[i] matches FsStep::Rename(a, b) ==> steps[i]@ == StepView::Rename(a@, b@),
{
}

/// A data file is written into a directory that was made before, then synced,
/// and then its directory is, with nothing else done.
pub proof fn law_data_file_is_synced_before_its_directory(dir: Seq<char>, path: Seq<char>)
    ensures
        ({
            let steps = data_file_steps(dir, path);
            exists|a: int, b: int, c: int, d: int|
                0 <= a < b < c < d && d == steps.len() - 1 && d == 3 && #[trigger] steps[a]
                    == StepView::MakeDir(dir) && #[trigger] steps[b] == StepView::Write(
                    Payload::DataFile,
                    path,
                ) && #[trigger] steps[c] == StepView::SyncFile(path) && #[trigger] steps[d]
                    == StepView::SyncDir(dir)
        }),
{
    let steps = data_file_steps(dir, path);
    assert(steps[0] == StepView::MakeDir(dir));
    assert(steps[1] == StepView::Write(Payload::DataFile, path));
    assert(steps[2] == StepView::SyncFile(path));
    assert(steps[3] == StepView::SyncDir(dir));
}

/// A Puffin file is on disk, with its name, once its steps are done: it is
/// written, then synced, then the directory that it lies in is.
pub proof fn law_puffin_is_synced_before_its_directory(path: Seq<char>)
    ensures
        ({
            let steps = puffin_steps(path);
            &&& exists|b: int, c: int|
                0 <= b < c < steps.len() && #[trigger] steps[b] == StepView::Write(
                    Payload::Puffin,
                    path,
                ) && #[trigger] steps[c] == StepView::SyncFile(path)
            &&& crate::paths::parent_of(path) matches Some(dir) ==> steps.len() == 4 && steps[0]
                == StepView::MakeDir(dir) && steps[3] == StepView::SyncDir(dir) && steps[2]
                == StepView::SyncFile(path)
            &&& crate::paths::parent_of(path) is None ==> steps.len() == 2
        }),
{
    let steps = puffin_steps(path);
    match crate::paths::parent_of(path) {
        Some(dir) => {
            assert(steps[1] == StepView::Write(Payload::Puffin, path));
            assert(steps[2] == StepView::SyncFile(path));
        },
        None => {
            assert(steps[0] == StepView::Write(Payload::Puffin, path));
            assert(steps[1] == StepView::SyncFile(path));
        },
    }
}

/// A commit writes the manifest of its version, and replaces the hint once, by
/// a rename of what was written and synced; the directory of the hint is
/// synced last.
pub proof fn law_commit_replaces_the_hint_once(base: Seq<char>, version: i64)
    ensures
        ({
            let steps = manifest_steps(base, version);
            &&& steps.len() == 7
            &&& steps[0] == StepView::Write(Payload::Manifest, metadata_path(base, version))
            &&& steps[1] == StepView::SyncFile(metadata_path(base, version))
            &&& steps[2] == StepView::SyncDir(metadata_dir(base))
            &&& steps[3] == StepView::Write(Payload::Hint, tmp_hint_path(base))
            &&& steps[4] == StepView::SyncFile(tmp_hint_path(base))
            &&& steps[5] == StepView::Rename(tmp_hint_path(base), hint_path(base))
            &&& steps[6] == StepView::SyncDir(base)
        }),
{
}

/// The error of a lost hint is a corruption that names the directory of the
/// manifests.
pub proof fn law_lost_hint_names_the_directory(base: Seq<char>)
    ensures
        lost_hint_error(base) matches ErrorView::Corruption(m) && crate::text::contains_text(
            m,
            metadata_dir(base),
        ),
{
    crate::text::lemma_contains_text(
        "version-hint.text is missing but "@,
        metadata_dir(base),
        "/ contains snapshot metadata files \u{2014} refusing to initialize a fresh catalog over existing data. Restore version-hint.text from backup or move the existing metadata/ directory aside."@,
    );
}

} // verus!
