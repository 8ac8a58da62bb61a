//! LSM levels and the metadata that every Parquet file carries.

use vstd::prelude::*;
use vstd::string::*;

use crate::text::{dec_u64, joined};

verus! {

/// LSM level. Level 0 holds fresh flushes, whose key ranges may overlap;
/// deeper levels are more compacted.
#[derive(Clone, Copy, Debug, PartialEq, Eq, PartialOrd, Ord, Hash, Structural)]
pub struct Level(pub u8);

impl Level {
    /// The level below.
    pub fn next(self) -> (r: Self)
        requires
            self.0 < u8::MAX,
        ensures
            r.0 == self.0 + 1,
    {
        Level(self.0 + 1)
    }

    /// The level's name.
    pub open spec fn name(self) -> Seq<char> {
        "L"@ + crate::text::dec_nat(self.0 as nat)
    }

    /// The level's name: `L` and its number.
    pub fn to_string(&self) -> (r: String)
        ensures
            r@ == self.name(),
    {
        joined("L", dec_u64(self.0 as u64).as_str())
    }
}

/// Physical layout of a Parquet file, stamped when it is written and kept
/// for good; a later change of configuration touches only new files.
#[derive(Debug, Clone, Copy, PartialEq, Eq, Structural)]
pub enum FileFormat {
    /// Typed columns only.
    Columnar,
    /// Typed columns and a row blob for fast point lookups.
    Dual,
}

impl FileFormat {
    /// The layout of a file without a stamp: level 0 carries the blob.
    pub open spec fn implied(level: Level) -> FileFormat {
        if level.0 == 0 {
            FileFormat::Dual
        } else {
            FileFormat::Columnar
        }
    }

    /// The layout of a file without a stamp: level 0 carries the blob, deeper
    /// levels do not.
    pub fn default_for_level(level: Level) -> (r: Self)
        ensures
            r == Self::implied(level),
    {
        if level.0 == 0 {
            FileFormat::Dual
        } else {
            FileFormat::Columnar
        }
    }

    /// Whether the layout carries the row blob.
    pub fn has_value_blob(self) -> (r: bool)
        ensures
            r == (self == FileFormat::Dual),
    {
        match self {
            FileFormat::Dual => true,
            FileFormat::Columnar => false,
        }
    }

    /// The stamp in JSON.
    pub open spec fn stamp(self) -> Seq<char> {
        match self {
            FileFormat::Columnar => "columnar"@,
            FileFormat::Dual => "dual"@,
        }
    }
}

/// Statistics of one column of one file. `field_id` counts columns from 1;
/// bounds are in Iceberg's single-value serialization.
#[derive(Debug)]
pub struct ColumnStats {
    pub field_id: i32,
    pub compressed_bytes: u64,
    pub value_count: u64,
    pub null_count: u64,
    pub lower_bound: Option<Vec<u8>>,
    pub upper_bound: Option<Vec<u8>>,
}

/// [`ColumnStats`] with its bounds as sequences.
#[verifier::ext_equal]
pub struct StatsView {
    pub field_id: i32,
    pub compressed_bytes: u64,
    pub value_count: u64,
    pub null_count: u64,
    pub lower_bound: Option<Seq<u8>>,
    pub upper_bound: Option<Seq<u8>>,
}

/// An optional byte string as an optional sequence.
pub open spec fn opt_bytes(o: Option<Vec<u8>>) -> Option<Seq<u8>> {
    match o {
        Some(v) => Some(v@),
        None => None,
    }
}

/// An optional text as an optional sequence.
pub open spec fn opt_text(o: Option<String>) -> Option<Seq<char>> {
    match o {
        Some(s) => Some(s@),
        None => None,
    }
}

impl View for ColumnStats {
    type V = StatsView;

    open spec fn view(&self) -> StatsView {
        StatsView {
            field_id: self.field_id,
            compressed_bytes: self.compressed_bytes,
            value_count: self.value_count,
            null_count: self.null_count,
            lower_bound: opt_bytes(self.lower_bound),
            upper_bound: opt_bytes(self.upper_bound),
        }
    }
}

/// The views of a row of statistics.
pub open spec fn stats_views(s: Seq<ColumnStats>) -> Seq<StatsView> {
    Seq::new(s.len(), |i: int| s[i]@)
}

/// Metadata in the KV footer of every Parquet file, as JSON under
/// [`FOOTER_KEY`]. Keys are encoded primary keys without the tag word.
#[derive(Debug)]
pub struct ParquetFileMeta {
    pub level: Level,
    /// Smallest sequence number of a row.
    pub seq_min: u64,
    /// Largest sequence number of a row.
    pub seq_max: u64,
    /// Smallest user key.
    pub key_min: Vec<u8>,
    /// Largest user key.
    pub key_max: Vec<u8>,
    pub num_rows: u64,
    pub file_size: u64,
    /// Path of the Puffin file with this file's deletion vector.
    pub dv_path: Option<String>,
    pub dv_offset: Option<i64>,
    pub dv_length: Option<i64>,
    /// Layout stamp; files without one have the layout of their level.
    pub format: Option<FileFormat>,
    /// Per-column statistics, when the writer took any.
    pub column_stats: Option<Vec<ColumnStats>>,
}

/// [`ParquetFileMeta`] with its keys and texts as sequences.
#[verifier::ext_equal]
pub struct MetaView {
    pub level: Level,
    pub seq_min: u64,
    pub seq_max: u64,
    pub key_min: Seq<u8>,
    pub key_max: Seq<u8>,
    pub num_rows: u64,
    pub file_size: u64,
    pub dv_path: Option<Seq<char>>,
    pub dv_offset: Option<i64>,
    pub dv_length: Option<i64>,
    pub format: Option<FileFormat>,
    pub column_stats: Option<Seq<StatsView>>,
}

impl View for ParquetFileMeta {
    type V = MetaView;

    open spec fn view(&self) -> MetaView {
        MetaView {
            level: self.level,
            seq_min: self.seq_min,
            seq_max: self.seq_max,
            key_min: self.key_min@,
            key_max: self.key_max@,
            num_rows: self.num_rows,
            file_size: self.file_size,
            dv_path: opt_text(self.dv_path),
            dv_offset: self.dv_offset,
            dv_length: self.dv_length,
            format: self.format,
            column_stats: match self.column_stats {
                Some(s) => Some(stats_views(s@)),
                None => None,
            },
        }
    }
}

/// KV footer key of [`ParquetFileMeta`].
pub const FOOTER_KEY: &'static str = "merutable.meta";

/// KV footer key of the table schema.
pub const SCHEMA_KEY: &'static str = "merutable.schema";

/// A copy of some bytes.
pub fn copy_bytes(v: &Vec<u8>) -> (r: Vec<u8>)
    ensures
        r@ == v@,
{
    let r = v.clone();
    assert(r@ =~= v@);
    r
}

/// A copy of an optional byte string.
fn copy_opt_bytes(v: &Option<Vec<u8>>) -> (r: Option<Vec<u8>>)
    ensures
        opt_bytes(r) == opt_bytes(*v),
{
    match v {
        Some(b) => Some(copy_bytes(b)),
        None => None,
    }
}

/// A copy of an optional text.
pub fn copy_opt_text(v: &Option<String>) -> (r: Option<String>)
    ensures
        opt_text(r) == opt_text(*v),
{
    match v {
        Some(s) => Some(s.clone()),
        None => None,
    }
}

impl Clone for ColumnStats {
    fn clone(&self) -> (r: Self)
        ensures
            r@ == self@,
    {
        ColumnStats {
            field_id: self.field_id,
            compressed_bytes: self.compressed_bytes,
            value_count: self.value_count,
            null_count: self.null_count,
            lower_bound: copy_opt_bytes(&self.lower_bound),
            upper_bound: copy_opt_bytes(&self.upper_bound),
        }
    }
}

impl Clone for ParquetFileMeta {
    fn clone(&self) -> (r: Self)
        ensures
            r@ == self@,
    {
        let column_stats = match &self.column_stats {
            None => None,
            Some(all) => {
                let mut copy: Vec<ColumnStats> = Vec::new();
                let mut i: usize = 0;
                while i < all.len()
                    invariant
                        i <= all@.len(),
                        copy@.len() == i,
                        forall|k: int| 0 <= k < i ==> (#[trigger] copy@[k])@ == all@[k]@,
                    decreases all@.len() - i,
                {
                    copy.push(all[i].clone());
                    i = i + 1;
                }
                assert(stats_views(copy@) =~= stats_views(all@));
                Some(copy)
            },
        };
        ParquetFileMeta {
            level: self.level,
            seq_min: self.seq_min,
            seq_max: self.seq_max,
            key_min: copy_bytes(&self.key_min),
            key_max: copy_bytes(&self.key_max),
            num_rows: self.num_rows,
            file_size: self.file_size,
            dv_path: copy_opt_text(&self.dv_path),
            dv_offset: self.dv_offset,
            dv_length: self.dv_length,
            format: self.format,
            column_stats,
        }
    }
}

/// A level is named by an `L` and the numeral of its number.
pub proof fn law_level_name_is_its_number(level: Level)
    ensures
        level.name().len() >= 2,
        level.name()[0] == 'L',
        crate::text::digits_value(level.name().skip(1)) == level.0,
{
    reveal_strlit("L");
    crate::text::lemma_dec_nat_digits(level.0 as nat);
    assert(level.name().skip(1) =~= crate::text::dec_nat(level.0 as nat));
}

/// Without a stamp, level 0 and no other level carries the row blob; and the
/// two stamps differ.
pub proof fn law_layouts(level: Level)
    ensures
        FileFormat::implied(level) == FileFormat::Dual <==> level.0 == 0,
        FileFormat::Dual.stamp() == seq!['d', 'u', 'a', 'l'],
        FileFormat::Columnar.stamp() == seq!['c', 'o', 'l', 'u', 'm', 'n', 'a', 'r'],
{
    reveal_strlit("dual");
    reveal_strlit("columnar");
    assert("dual"@ =~= seq!['d', 'u', 'a', 'l']);
    assert("columnar"@ =~= seq!['c', 'o', 'l', 'u', 'm', 'n', 'a', 'r']);
}

/// The view of a column's statistics shows each of them under its own name.
pub proof fn law_stats_view_shows_every_field(s: ColumnStats)
    ensures
        s@.field_id == s.field_id,
        s@.compressed_bytes == s.compressed_bytes,
        s@.value_count == s.value_count,
        s@.null_count == s.null_count,
        s@.lower_bound is Some <==> s.lower_bound is Some,
        s.lower_bound is Some ==> s@.lower_bound->0 == s.lower_bound->0@,
        s@.upper_bound is Some <==> s.upper_bound is Some,
        s.upper_bound is Some ==> s@.upper_bound->0 == s.upper_bound->0@,
{
}

/// The view of a file's metadata shows all of it, each field under its own
/// name, and the statistics of each column in order.
pub proof fn law_meta_view_shows_every_field(m: ParquetFileMeta)
    ensures
        m@.level == m.level,
        m@.seq_min == m.seq_min,
        m@.seq_max == m.seq_max,
        m@.key_min == m.key_min@,
        m@.key_max == m.key_max@,
        m@.num_rows == m.num_rows,
        m@.file_size == m.file_size,
        m@.dv_path is Some <==> m.dv_path is Some,
        m.dv_path is Some ==> m@.dv_path->0 == m.dv_path->0@,
        m@.dv_offset == m.dv_offset,
        m@.dv_length == m.dv_length,
        m@.format == m.format,
        m@.column_stats is Some <==> m.column_stats is Some,
        m.column_stats is Some ==> m@.column_stats->0.len() == m.column_stats->0@.len(),
        m.column_stats is Some ==> forall|i: int|
            0 <= i < m.column_stats->0@.len() ==> #[trigger] m@.column_stats->0[i]
                == m.column_stats->0@[i]@,
{
}

/// An optional text or byte string is shown as it is.
pub proof fn law_options_are_shown_as_they_are(text: Option<String>, bytes: Option<Vec<u8>>)
    ensures
        opt_text(text) is Some <==> text is Some,
        text is Some ==> opt_text(text)->0 == text->0@,
        opt_bytes(bytes) is Some <==> bytes is Some,
        bytes is Some ==> opt_bytes(bytes)->0 == bytes->0@,
{
}

} // verus!
