//! The JSON form of [`ParquetFileMeta`] in a Parquet footer.

use serde_json::Value;
use vstd::prelude::*;
use vstd::string::*;

use crate::json::{
    JsonReading, JsonTree, can_be_record, json_array, json_i64, json_null, json_object,
    json_string, json_u64, parse_json, print_json, read_field, read_i64, read_str, read_u64,
};
use crate::text::same_text;
use crate::types::error::{ErrorView, MeruError, Result};
use crate::types::hexcode::{hex_decode, hex_encode};
use crate::types::level::{ColumnStats, FileFormat, Level, MetaView, ParquetFileMeta, StatsView};

verus! {

/// An optional byte string as hexadecimal text or `null`.
pub open spec fn opt_hex_tree(o: Option<Seq<u8>>) -> JsonTree {
    match o {
        Some(b) => JsonTree::Str(crate::types::hexcode::hex_text(b)),
        None => JsonTree::Null,
    }
}

/// The JSON of one column's statistics.
pub open spec fn stats_tree(s: StatsView) -> JsonTree {
    JsonTree::Obj(
        seq![
            ("field_id"@, JsonTree::Int(s.field_id as i128)),
            ("compressed_bytes"@, JsonTree::Int(s.compressed_bytes as i128)),
            ("value_count"@, JsonTree::Int(s.value_count as i128)),
            ("null_count"@, JsonTree::Int(s.null_count as i128)),
            ("lower_bound"@, opt_hex_tree(s.lower_bound)),
            ("upper_bound"@, opt_hex_tree(s.upper_bound)),
        ],
    )
}

/// An optional integer as a number or `null`.
pub open spec fn opt_i64_tree(o: Option<i64>) -> JsonTree {
    match o {
        Some(n) => JsonTree::Int(n as i128),
        None => JsonTree::Null,
    }
}

/// The JSON of the column statistics: an array or `null`.
pub open spec fn all_stats_tree(o: Option<Seq<StatsView>>) -> JsonTree {
    match o {
        Some(s) => JsonTree::Arr(Seq::new(s.len(), |i: int| stats_tree(s[i]))),
        None => JsonTree::Null,
    }
}

/// The JSON of a file's metadata.
pub open spec fn meta_tree(m: MetaView) -> JsonTree {
    JsonTree::Obj(
        seq![
            ("level"@, JsonTree::Int(m.level.0 as i128)),
            ("seq_min"@, JsonTree::Int(m.seq_min as i128)),
            ("seq_max"@, JsonTree::Int(m.seq_max as i128)),
            ("key_min"@, JsonTree::Str(crate::types::hexcode::hex_text(m.key_min))),
            ("key_max"@, JsonTree::Str(crate::types::hexcode::hex_text(m.key_max))),
            ("num_rows"@, JsonTree::Int(m.num_rows as i128)),
            ("file_size"@, JsonTree::Int(m.file_size as i128)),
            (
                "dv_path"@,
                match m.dv_path {
                    Some(p) => JsonTree::Str(p),
                    None => JsonTree::Null,
                },
            ),
            ("dv_offset"@, opt_i64_tree(m.dv_offset)),
            ("dv_length"@, opt_i64_tree(m.dv_length)),
            (
                "format"@,
                match m.format {
                    Some(f) => JsonTree::Str(f.stamp()),
                    None => JsonTree::Null,
                },
            ),
            ("column_stats"@, all_stats_tree(m.column_stats)),
        ],
    )
}

/// What an optional member holds.
pub enum Optional<T> {
    /// The member is absent or `null`.
    Absent,
    /// The member has this value.
    Present(T),
    /// The member has another type.
    Mistyped,
}

impl<T> Optional<T> {
    /// Whether the member is usable, and what it then says.
    pub open spec fn settled(self) -> Option<Option<T>> {
        match self {
            Optional::Absent => Some(None),
            Optional::Present(x) => Some(Some(x)),
            Optional::Mistyped => None,
        }
    }
}

/// An optional text member.
pub open spec fn opt_str_at(t: JsonTree, key: Seq<char>, pos: int) -> Optional<Seq<char>> {
    match crate::json::field(t, key, pos) {
        None => Optional::Absent,
        Some(JsonTree::Null) => Optional::Absent,
        Some(JsonTree::Str(s)) => Optional::Present(s),
        Some(_) => Optional::Mistyped,
    }
}

/// An optional 64-bit integer member.
pub open spec fn opt_i64_at(t: JsonTree, key: Seq<char>, pos: int) -> Optional<i64> {
    match crate::json::field(t, key, pos) {
        None => Optional::Absent,
        Some(JsonTree::Null) => Optional::Absent,
        Some(JsonTree::Int(n)) => if i64::MIN <= n <= i64::MAX {
            Optional::Present(n as i64)
        } else {
            Optional::Mistyped
        },
        Some(_) => Optional::Mistyped,
    }
}

/// A member of hexadecimal text.
pub open spec fn hex_at(t: JsonTree, key: Seq<char>, pos: int) -> Option<Seq<u8>> {
    match crate::json::str_at(t, key, pos) {
        Some(s) => crate::types::hexcode::hex_decoded(s),
        None => None,
    }
}

/// An optional member of hexadecimal text.
pub open spec fn opt_hex_at(t: JsonTree, key: Seq<char>, pos: int) -> Optional<Seq<u8>> {
    match opt_str_at(t, key, pos) {
        Optional::Absent => Optional::Absent,
        Optional::Mistyped => Optional::Mistyped,
        Optional::Present(s) => match crate::types::hexcode::hex_decoded(s) {
            Some(b) => Optional::Present(b),
            None => Optional::Mistyped,
        },
    }
}

/// The optional layout stamp.
pub open spec fn opt_format_at(t: JsonTree, key: Seq<char>, pos: int) -> Optional<FileFormat> {
    match opt_str_at(t, key, pos) {
        Optional::Absent => Optional::Absent,
        Optional::Mistyped => Optional::Mistyped,
        Optional::Present(s) => if s == FileFormat::Columnar.stamp() {
            Optional::Present(FileFormat::Columnar)
        } else if s == FileFormat::Dual.stamp() {
            Optional::Present(FileFormat::Dual)
        } else {
            Optional::Mistyped
        },
    }
}

/// The column statistics that `t` is, when every field has its type. An array
/// may leave the two bounds out.
pub open spec fn stats_of(t: JsonTree) -> Option<StatsView> {
    let field_id = crate::json::i64_at(t, "field_id"@, 0);
    if crate::json::is_record(t, 4, 6) && field_id is Some && i32::MIN <= field_id->0
        <= i32::MAX && crate::json::u64_at(
        t,
        "compressed_bytes"@,
        1,
    ) is Some && crate::json::u64_at(t, "value_count"@, 2) is Some && crate::json::u64_at(
        t,
        "null_count"@,
        3,
    ) is Some && opt_hex_at(t, "lower_bound"@, 4).settled() is Some && opt_hex_at(
        t,
        "upper_bound"@,
        5,
    ).settled() is Some {
        Some(
            StatsView {
                field_id: field_id->0 as i32,
                compressed_bytes: crate::json::u64_at(t, "compressed_bytes"@, 1)->0,
                value_count: crate::json::u64_at(t, "value_count"@, 2)->0,
                null_count: crate::json::u64_at(t, "null_count"@, 3)->0,
                lower_bound: opt_hex_at(t, "lower_bound"@, 4).settled()->0,
                upper_bound: opt_hex_at(t, "upper_bound"@, 5).settled()->0,
            },
        )
    } else {
        None
    }
}

/// The optional array of column statistics.
pub open spec fn all_stats_at(t: JsonTree, key: Seq<char>, pos: int) -> Optional<Seq<StatsView>> {
    match crate::json::field(t, key, pos) {
        None => Optional::Absent,
        Some(JsonTree::Null) => Optional::Absent,
        Some(JsonTree::Arr(items)) => if forall|i: int|
            0 <= i < items.len() ==> stats_of(#[trigger] items[i]) is Some {
            Optional::Present(Seq::new(items.len(), |i: int| stats_of(items[i])->0))
        } else {
            Optional::Mistyped
        },
        Some(_) => Optional::Mistyped,
    }
}

/// The file metadata that `t` is, when every field has its type. An array may
/// leave the layout stamp and the statistics out.
pub open spec fn meta_of(t: JsonTree) -> Option<MetaView> {
    let level = crate::json::u64_at(t, "level"@, 0);
    if crate::json::is_record(t, 10, 12) && level is Some && level->0 <= u8::MAX
        && crate::json::u64_at(t, "seq_min"@, 1) is Some
        && crate::json::u64_at(t, "seq_max"@, 2) is Some && hex_at(t, "key_min"@, 3) is Some
        && hex_at(t, "key_max"@, 4) is Some && crate::json::u64_at(t, "num_rows"@, 5) is Some && crate::json::u64_at(
        t,
        "file_size"@,
        6,
    ) is Some && opt_str_at(t, "dv_path"@, 7).settled() is Some && opt_i64_at(
        t,
        "dv_offset"@,
        8,
    ).settled() is Some && opt_i64_at(t, "dv_length"@, 9).settled() is Some && opt_format_at(
        t,
        "format"@,
        10,
    ).settled() is Some && all_stats_at(t, "column_stats"@, 11).settled() is Some {
        Some(
            MetaView {
                level: Level(level->0 as u8),
                seq_min: crate::json::u64_at(t, "seq_min"@, 1)->0,
                seq_max: crate::json::u64_at(t, "seq_max"@, 2)->0,
                key_min: hex_at(t, "key_min"@, 3)->0,
                key_max: hex_at(t, "key_max"@, 4)->0,
                num_rows: crate::json::u64_at(t, "num_rows"@, 5)->0,
                file_size: crate::json::u64_at(t, "file_size"@, 6)->0,
                dv_path: opt_str_at(t, "dv_path"@, 7).settled()->0,
                dv_offset: opt_i64_at(t, "dv_offset"@, 8).settled()->0,
                dv_length: opt_i64_at(t, "dv_length"@, 9).settled()->0,
                format: opt_format_at(t, "format"@, 10).settled()->0,
                column_stats: all_stats_at(t, "column_stats"@, 11).settled()->0,
            },
        )
    } else {
        None
    }
}

/// What reading a footer text as file metadata gives.
pub open spec fn meta_parsed(text: Seq<char>) -> std::result::Result<MetaView, ErrorView> {
    match crate::json::json_parsed(text) {
        JsonReading::Failure(m) => Err(ErrorView::Corruption(m)),
        JsonReading::Document(t) => match meta_of(t) {
            Some(m) => Ok(m),
            None => Err(ErrorView::Corruption("missing or mistyped file metadata field"@)),
        },
    }
}

/// The JSON of statistics has distinct names and reads back as itself.
proof fn lemma_stats_tree(s: StatsView)
    ensures
        crate::json::names_distinct(stats_tree(s)->Obj_0),
        stats_of(stats_tree(s)) == Some(s),
        stats_tree(s).plain_within(2),
{
    reveal_strlit("field_id");
    reveal_strlit("compressed_bytes");
    reveal_strlit("value_count");
    reveal_strlit("null_count");
    reveal_strlit("lower_bound");
    reveal_strlit("upper_bound");
    reveal_with_fuel(JsonTree::plain_within, 3);
    let t = stats_tree(s);
    let m = t->Obj_0;
    assert(m[0].0.len() == 8);
    assert(m[1].0.len() == 16);
    assert(m[2].0.len() == 11 && m[2].0[0] == 'v');
    assert(m[3].0.len() == 10);
    assert(m[4].0.len() == 11 && m[4].0[0] == 'l');
    assert(m[5].0.len() == 11 && m[5].0[0] == 'u');
    assert(crate::json::names_distinct(m));
    crate::json::lemma_member_at(m, 0);
    crate::json::lemma_member_at(m, 1);
    crate::json::lemma_member_at(m, 2);
    crate::json::lemma_member_at(m, 3);
    crate::json::lemma_member_at(m, 4);
    crate::json::lemma_member_at(m, 5);
    if s.lower_bound is Some {
        crate::types::hexcode::law_hex_roundtrip(s.lower_bound->0);
    }
    if s.upper_bound is Some {
        crate::types::hexcode::law_hex_roundtrip(s.upper_bound->0);
    }
}

/// The JSON of metadata has distinct names.
proof fn lemma_meta_names(m: MetaView)
    ensures
        crate::json::names_distinct(meta_tree(m)->Obj_0),
{
    reveal_strlit("level");
    reveal_strlit("seq_min");
    reveal_strlit("seq_max");
    reveal_strlit("key_min");
    reveal_strlit("key_max");
    reveal_strlit("num_rows");
    reveal_strlit("file_size");
    reveal_strlit("dv_path");
    reveal_strlit("dv_offset");
    reveal_strlit("dv_length");
    reveal_strlit("format");
    reveal_strlit("column_stats");
    let f = meta_tree(m)->Obj_0;
    assert(f[0].0.len() == 5);
    assert(f[1].0.len() == 7 && f[1].0[0] == 's' && f[1].0[5] == 'i');
    assert(f[2].0.len() == 7 && f[2].0[0] == 's' && f[2].0[5] == 'a');
    assert(f[3].0.len() == 7 && f[3].0[0] == 'k' && f[3].0[5] == 'i');
    assert(f[4].0.len() == 7 && f[4].0[0] == 'k' && f[4].0[5] == 'a');
    assert(f[5].0.len() == 8);
    assert(f[6].0.len() == 9 && f[6].0[0] == 'f');
    assert(f[7].0.len() == 7 && f[7].0[0] == 'd');
    assert(f[8].0.len() == 9 && f[8].0[0] == 'd' && f[8].0[3] == 'o');
    assert(f[9].0.len() == 9 && f[9].0[0] == 'd' && f[9].0[3] == 'l');
    assert(f[10].0.len() == 6);
    assert(f[11].0.len() == 12);
}

/// Reading the JSON of metadata gives back the metadata.
pub proof fn law_meta_tree_roundtrip(m: MetaView)
    ensures
        meta_of(meta_tree(m)) == Some(m),
{
    let t = meta_tree(m);
    let f = t->Obj_0;
    lemma_meta_names(m);
    crate::json::lemma_member_at(f, 0);
    crate::json::lemma_member_at(f, 1);
    crate::json::lemma_member_at(f, 2);
    crate::json::lemma_member_at(f, 3);
    crate::json::lemma_member_at(f, 4);
    crate::json::lemma_member_at(f, 5);
    crate::json::lemma_member_at(f, 6);
    crate::json::lemma_member_at(f, 7);
    crate::json::lemma_member_at(f, 8);
    crate::json::lemma_member_at(f, 9);
    crate::json::lemma_member_at(f, 10);
    crate::json::lemma_member_at(f, 11);
    crate::types::hexcode::law_hex_roundtrip(m.key_min);
    crate::types::hexcode::law_hex_roundtrip(m.key_max);
    reveal_strlit("columnar");
    reveal_strlit("dual");
    assert("columnar"@.len() != "dual"@.len());
    if m.column_stats is Some {
        let all = m.column_stats->0;
        let items = f[11].1->Arr_0;
        assert forall|i: int| 0 <= i < items.len() implies stats_of(#[trigger] items[i]) == Some(
            all[i],
        ) by {
            lemma_stats_tree(all[i]);
        }
        assert(Seq::new(items.len(), |i: int| stats_of(items[i])->0) =~= all);
    }
}

/// The JSON of metadata nests shallowly and holds no fractions.
proof fn lemma_meta_plain(m: MetaView)
    ensures
        meta_tree(m).plain_within(crate::json::max_depth()),
{
    reveal_with_fuel(JsonTree::plain_within, 3);
    let f = meta_tree(m)->Obj_0;
    if m.column_stats is Some {
        let all = m.column_stats->0;
        let items = f[11].1->Arr_0;
        assert forall|i: int| 0 <= i < items.len() implies (#[trigger] items[i]).plain_within(
            14,
        ) by {
            lemma_stats_tree(all[i]);
            assert(items[i] == stats_tree(all[i]));
        }
        assert(f[11].1.plain_within(15));
    }
    assert forall|i: int| 0 <= i < f.len() implies (#[trigger] f[i]).1.plain_within(15) by {}
}

/// Hexadecimal text or `null`.
fn opt_hex_value(o: &Option<Vec<u8>>) -> (r: Value)
    ensures
        crate::json::json_tree(r) == opt_hex_tree(crate::types::level::opt_bytes(*o)),
{
    match o {
        Some(b) => json_string(hex_encode(b.as_slice())),
        None => json_null(),
    }
}

/// A number or `null`.
fn opt_i64_value(o: Option<i64>) -> (r: Value)
    ensures
        crate::json::json_tree(r) == opt_i64_tree(o),
{
    match o {
        Some(n) => json_i64(n),
        None => json_null(),
    }
}

/// The JSON of one column's statistics.
fn stats_value(s: &ColumnStats) -> (r: Value)
    ensures
        crate::json::json_tree(r) == stats_tree(s@),
{
    let entries = vec![
        ("field_id".to_owned(), json_i64(s.field_id as i64)),
        ("compressed_bytes".to_owned(), json_u64(s.compressed_bytes)),
        ("value_count".to_owned(), json_u64(s.value_count)),
        ("null_count".to_owned(), json_u64(s.null_count)),
        ("lower_bound".to_owned(), opt_hex_value(&s.lower_bound)),
        ("upper_bound".to_owned(), opt_hex_value(&s.upper_bound)),
    ];
    proof {
        lemma_stats_tree(s@);
        assert(crate::json::members_of(entries@) =~= stats_tree(s@)->Obj_0);
    }
    json_object(entries)
}

/// The JSON of all columns' statistics.
fn all_stats_value(o: &Option<Vec<ColumnStats>>) -> (r: Value)
    ensures
        crate::json::json_tree(r) == all_stats_tree(
            match *o {
                Some(s) => Some(crate::types::level::stats_views(s@)),
                None => None,
            },
        ),
{
    match o {
        None => json_null(),
        Some(all) => {
            let mut items: Vec<Value> = Vec::new();
            let mut i: usize = 0;
            while i < all.len()
                invariant
                    i <= all@.len(),
                    items@.len() == i,
                    forall|k: int|
                        0 <= k < i ==> crate::json::json_tree(#[trigger] items@[k]) == stats_tree(
                            all@[k]@,
                        ),
                decreases all@.len() - i,
            {
                items.push(stats_value(&all[i]));
                i = i + 1;
            }
            proof {
                let views = crate::types::level::stats_views(all@);
                assert(Seq::new(items@.len(), |i: int| crate::json::json_tree(items@[i]))
                    =~= Seq::new(views.len(), |i: int| stats_tree(views[i])));
            }
            json_array(items)
        },
    }
}

/// An optional text member; `Err` when it has another type.
fn read_opt_str(v: &Value, key: &str, pos: usize) -> (r: std::result::Result<Option<String>, ()>)
    ensures
        match r {
            Ok(o) => opt_str_at(crate::json::json_tree(*v), key@, pos as int).settled() == Some(
                crate::types::level::opt_text(o),
            ),
            Err(_) => opt_str_at(crate::json::json_tree(*v), key@, pos as int) is Mistyped,
        },
{
    match read_field(v, key, pos) {
        None => Ok(None),
        Some(x) => {
            if x.is_null() {
                Ok(None)
            } else {
                match x.as_str() {
                    Some(s) => Ok(Some(s.to_owned())),
                    None => Err(()),
                }
            }
        },
    }
}

/// An optional integer member; `Err` when it has another type.
fn read_opt_i64(v: &Value, key: &str, pos: usize) -> (r: std::result::Result<Option<i64>, ()>)
    ensures
        match r {
            Ok(o) => opt_i64_at(crate::json::json_tree(*v), key@, pos as int).settled() == Some(o),
            Err(_) => opt_i64_at(crate::json::json_tree(*v), key@, pos as int) is Mistyped,
        },
{
    match read_field(v, key, pos) {
        None => Ok(None),
        Some(x) => {
            if x.is_null() {
                Ok(None)
            } else {
                match x.as_i64() {
                    Some(n) => Ok(Some(n)),
                    None => Err(()),
                }
            }
        },
    }
}

/// A member of hexadecimal text.
fn read_hex(v: &Value, key: &str, pos: usize) -> (r: Option<Vec<u8>>)
    ensures
        match r {
            Some(b) => hex_at(crate::json::json_tree(*v), key@, pos as int) == Some(b@),
            None => hex_at(crate::json::json_tree(*v), key@, pos as int) is None,
        },
{
    match read_str(v, key, pos) {
        Some(s) => hex_decode(s.as_str()),
        None => None,
    }
}

/// An optional member of hexadecimal text; `Err` when it is something else.
fn read_opt_hex(v: &Value, key: &str, pos: usize) -> (r: std::result::Result<Option<Vec<u8>>, ()>)
    ensures
        match r {
            Ok(o) => opt_hex_at(crate::json::json_tree(*v), key@, pos as int).settled() == Some(
                crate::types::level::opt_bytes(o),
            ),
            Err(_) => opt_hex_at(crate::json::json_tree(*v), key@, pos as int) is Mistyped,
        },
{
    match read_opt_str(v, key, pos) {
        Err(_) => Err(()),
        Ok(None) => Ok(None),
        Ok(Some(s)) => match hex_decode(s.as_str()) {
            Some(b) => Ok(Some(b)),
            None => Err(()),
        },
    }
}

/// The optional layout stamp; `Err` when it is no stamp.
fn read_opt_format(v: &Value, key: &str, pos: usize) -> (r: std::result::Result<
    Option<FileFormat>,
    (),
>)
    ensures
        match r {
            Ok(o) => opt_format_at(crate::json::json_tree(*v), key@, pos as int).settled()
                == Some(o),
            Err(_) => opt_format_at(crate::json::json_tree(*v), key@, pos as int) is Mistyped,
        },
{
    match read_opt_str(v, key, pos) {
        Err(_) => Err(()),
        Ok(None) => Ok(None),
        Ok(Some(s)) => {
            if same_text(s.as_str(), "columnar") {
                Ok(Some(FileFormat::Columnar))
            } else if same_text(s.as_str(), "dual") {
                Ok(Some(FileFormat::Dual))
            } else {
                Err(())
            }
        },
    }
}

/// The column statistics that `v` is, when every field has its type.
fn read_stats(v: &Value) -> (r: Option<ColumnStats>)
    ensures
        match r {
            Some(s) => stats_of(crate::json::json_tree(*v)) == Some(s@),
            None => stats_of(crate::json::json_tree(*v)) is None,
        },
{
    if !can_be_record(v, 4, 6) {
        return None;
    }
    let field_id: i32 = match read_i64(v, "field_id", 0) {
        Some(n) => {
            if n < -2_147_483_648 || n > 2_147_483_647 {
                return None;
            }
            n as i32
        },
        None => return None,
    };
    let compressed_bytes: u64 = match read_u64(v, "compressed_bytes", 1) {
        Some(n) => n,
        None => return None,
    };
    let value_count: u64 = match read_u64(v, "value_count", 2) {
        Some(n) => n,
        None => return None,
    };
    let null_count: u64 = match read_u64(v, "null_count", 3) {
        Some(n) => n,
        None => return None,
    };
    let lower_bound = match read_opt_hex(v, "lower_bound", 4) {
        Ok(b) => b,
        Err(_) => return None,
    };
    let upper_bound = match read_opt_hex(v, "upper_bound", 5) {
        Ok(b) => b,
        Err(_) => return None,
    };
    Some(
        ColumnStats {
            field_id,
            compressed_bytes,
            value_count,
            null_count,
            lower_bound,
            upper_bound,
        },
    )
}

/// The optional column statistics; `Err` when they are something else.
fn read_all_stats(v: &Value, key: &str, pos: usize) -> (r: std::result::Result<
    Option<Vec<ColumnStats>>,
    (),
>)
    ensures
        match r {
            Ok(o) => all_stats_at(crate::json::json_tree(*v), key@, pos as int).settled() == Some(
                match o {
                    Some(s) => Some(crate::types::level::stats_views(s@)),
                    None => None,
                },
            ),
            Err(_) => all_stats_at(crate::json::json_tree(*v), key@, pos as int) is Mistyped,
        },
{
    let x: &Value = match read_field(v, key, pos) {
        None => return Ok(None),
        Some(x) => x,
    };
    if x.is_null() {
        return Ok(None);
    }
    let items: &Vec<Value> = match x.as_array() {
        Some(items) => items,
        None => return Err(()),
    };
    let ghost trees = crate::json::json_tree(*x)->Arr_0;
    let mut all: Vec<ColumnStats> = Vec::new();
    let mut i: usize = 0;
    while i < items.len()
        invariant
            i <= items@.len(),
            all@.len() == i,
            trees == Seq::new(items@.len(), |i: int| crate::json::json_tree(items@[i])),
            crate::json::field(crate::json::json_tree(*v), key@, pos as int) == Some(
                JsonTree::Arr(trees),
            ),
            forall|k: int| 0 <= k < i ==> stats_of(#[trigger] trees[k]) == Some(all@[k]@),
        decreases items@.len() - i,
    {
        match read_stats(&items[i]) {
            Some(s) => {
                assert(stats_of(trees[i as int]) == Some(s@));
                all.push(s);
            },
            None => {
                assert(stats_of(trees[i as int]) is None);
                return Err(());
            },
        }
        i = i + 1;
    }
    assert(Seq::new(trees.len(), |i: int| stats_of(trees[i])->0)
        =~= crate::types::level::stats_views(all@));
    Ok(Some(all))
}

/// The file metadata that `v` is, when every field has its type.
fn read_meta(v: &Value) -> (r: Option<ParquetFileMeta>)
    ensures
        match r {
            Some(m) => meta_of(crate::json::json_tree(*v)) == Some(m@),
            None => meta_of(crate::json::json_tree(*v)) is None,
        },
{
    if !can_be_record(v, 10, 12) {
        return None;
    }
    let level: Level = match read_u64(v, "level", 0) {
        Some(n) => {
            if n > 255 {
                return None;
            }
            Level(n as u8)
        },
        None => return None,
    };
    let seq_min: u64 = match read_u64(v, "seq_min", 1) {
        Some(n) => n,
        None => return None,
    };
    let seq_max: u64 = match read_u64(v, "seq_max", 2) {
        Some(n) => n,
        None => return None,
    };
    let key_min = match read_hex(v, "key_min", 3) {
        Some(b) => b,
        None => return None,
    };
    let key_max = match read_hex(v, "key_max", 4) {
        Some(b) => b,
        None => return None,
    };
    let num_rows: u64 = match read_u64(v, "num_rows", 5) {
        Some(n) => n,
        None => return None,
    };
    let file_size: u64 = match read_u64(v, "file_size", 6) {
        Some(n) => n,
        None => return None,
    };
    let dv_path = match read_opt_str(v, "dv_path", 7) {
        Ok(o) => o,
        Err(_) => return None,
    };
    let dv_offset = match read_opt_i64(v, "dv_offset", 8) {
        Ok(o) => o,
        Err(_) => return None,
    };
    let dv_length = match read_opt_i64(v, "dv_length", 9) {
        Ok(o) => o,
        Err(_) => return None,
    };
    let format = match read_opt_format(v, "format", 10) {
        Ok(o) => o,
        Err(_) => return None,
    };
    let column_stats = match read_all_stats(v, "column_stats", 11) {
        Ok(o) => o,
        Err(_) => return None,
    };
    Some(
        ParquetFileMeta {
            level,
            seq_min,
            seq_max,
            key_min,
            key_max,
            num_rows,
            file_size,
            dv_path,
            dv_offset,
            dv_length,
            format,
            column_stats,
        },
    )
}

impl ParquetFileMeta {
    /// The metadata as JSON. Reading the text gives the metadata back.
    pub fn serialize(&self) -> (r: Result<String>)
        ensures
            r matches Ok(s) && s@ == crate::json::json_text(meta_tree(self@)) && meta_parsed(s@)
                == Ok::<MetaView, ErrorView>(self@),
    {
        let dv_path = match &self.dv_path {
            Some(p) => json_string(p.clone()),
            None => json_null(),
        };
        let format = match self.format {
            Some(FileFormat::Columnar) => json_string("columnar".to_owned()),
            Some(FileFormat::Dual) => json_string("dual".to_owned()),
            None => json_null(),
        };
        let entries = vec![
            ("level".to_owned(), json_u64(self.level.0 as u64)),
            ("seq_min".to_owned(), json_u64(self.seq_min)),
            ("seq_max".to_owned(), json_u64(self.seq_max)),
            ("key_min".to_owned(), json_string(hex_encode(self.key_min.as_slice()))),
            ("key_max".to_owned(), json_string(hex_encode(self.key_max.as_slice()))),
            ("num_rows".to_owned(), json_u64(self.num_rows)),
            ("file_size".to_owned(), json_u64(self.file_size)),
            ("dv_path".to_owned(), dv_path),
            ("dv_offset".to_owned(), opt_i64_value(self.dv_offset)),
            ("dv_length".to_owned(), opt_i64_value(self.dv_length)),
            ("format".to_owned(), format),
            ("column_stats".to_owned(), all_stats_value(&self.column_stats)),
        ];
        proof {
            lemma_meta_names(self@);
            lemma_meta_plain(self@);
            law_meta_tree_roundtrip(self@);
            assert(crate::json::members_of(entries@) =~= meta_tree(self@)->Obj_0);
        }
        let v = json_object(entries);
        match print_json(&v) {
            Ok(s) => Ok(s),
            Err(m) => Err(MeruError::Corruption(m)),
        }
    }

    /// Reads metadata from the text of a footer entry: an object of its fields,
    /// or an array of them in their order. The text is read as an untyped
    /// document first, so that of a repeated field the last value counts, a
    /// field that is not known must be valid too, and the error for a missing
    /// or mistyped field does not name it.
    pub fn deserialize(s: &str) -> (r: Result<Self>)
        ensures
            match r {
                Ok(m) => meta_parsed(s@) == Ok::<MetaView, ErrorView>(m@),
                Err(e) => meta_parsed(s@) == Err::<MetaView, ErrorView>(e@),
            },
    {
        match parse_json(s) {
            Err(m) => Err(MeruError::Corruption(m)),
            Ok(v) => match read_meta(&v) {
                Some(m) => Ok(m),
                None => Err(
                    MeruError::Corruption("missing or mistyped file metadata field".to_owned()),
                ),
            },
        }
    }
}

/// The JSON of metadata gives each field under its own name: numbers as
/// numbers, keys as hexadecimal text, and `null` for what is absent.
pub proof fn law_meta_is_written_under_its_names(m: MetaView)
    ensures
        meta_tree(m).get("level"@) == Some(JsonTree::Int(m.level.0 as i128)),
        meta_tree(m).get("seq_min"@) == Some(JsonTree::Int(m.seq_min as i128)),
        meta_tree(m).get("seq_max"@) == Some(JsonTree::Int(m.seq_max as i128)),
        meta_tree(m).get("key_min"@) == Some(
            JsonTree::Str(crate::types::hexcode::hex_text(m.key_min)),
        ),
        meta_tree(m).get("key_max"@) == Some(
            JsonTree::Str(crate::types::hexcode::hex_text(m.key_max)),
        ),
        meta_tree(m).get("num_rows"@) == Some(JsonTree::Int(m.num_rows as i128)),
        meta_tree(m).get("file_size"@) == Some(JsonTree::Int(m.file_size as i128)),
        m.dv_path matches Some(p) ==> meta_tree(m).get("dv_path"@) == Some(JsonTree::Str(p)),
        m.dv_path is None ==> meta_tree(m).get("dv_path"@) == Some(JsonTree::Null),
        m.dv_offset matches Some(n) ==> meta_tree(m).get("dv_offset"@) == Some(
            JsonTree::Int(n as i128),
        ),
        m.dv_offset is None ==> meta_tree(m).get("dv_offset"@) == Some(JsonTree::Null),
        m.dv_length matches Some(n) ==> meta_tree(m).get("dv_length"@) == Some(
            JsonTree::Int(n as i128),
        ),
        m.dv_length is None ==> meta_tree(m).get("dv_length"@) == Some(JsonTree::Null),
        m.format == Some(FileFormat::Dual) ==> meta_tree(m).get("format"@) == Some(
            JsonTree::Str("dual"@),
        ),
        m.format == Some(FileFormat::Columnar) ==> meta_tree(m).get("format"@) == Some(
            JsonTree::Str("columnar"@),
        ),
        m.format is None ==> meta_tree(m).get("format"@) == Some(JsonTree::Null),
        m.column_stats is None ==> meta_tree(m).get("column_stats"@) == Some(JsonTree::Null),
        m.column_stats matches Some(all) ==> (meta_tree(m).get("column_stats"@) matches Some(
            JsonTree::Arr(items),
        ) && items.len() == all.len() && forall|i: int|
            0 <= i < items.len() ==> stats_of(#[trigger] items[i]) == Some(all[i])),
{
    let f = meta_tree(m)->Obj_0;
    lemma_meta_names(m);
    crate::json::lemma_member_at(f, 0);
    crate::json::lemma_member_at(f, 1);
    crate::json::lemma_member_at(f, 2);
    crate::json::lemma_member_at(f, 3);
    crate::json::lemma_member_at(f, 4);
    crate::json::lemma_member_at(f, 5);
    crate::json::lemma_member_at(f, 6);
    crate::json::lemma_member_at(f, 7);
    crate::json::lemma_member_at(f, 8);
    crate::json::lemma_member_at(f, 9);
    crate::json::lemma_member_at(f, 10);
    crate::json::lemma_member_at(f, 11);
    if m.column_stats is Some {
        let all = m.column_stats->0;
        let items = f[11].1->Arr_0;
        assert forall|i: int| 0 <= i < items.len() implies stats_of(#[trigger] items[i]) == Some(
            all[i],
        ) by {
            lemma_stats_tree(all[i]);
        }
    }
}

/// The JSON of a column's statistics gives each of them under its own name.
pub proof fn law_stats_are_written_under_their_names(s: StatsView)
    ensures
        stats_tree(s).get("field_id"@) == Some(JsonTree::Int(s.field_id as i128)),
        stats_tree(s).get("compressed_bytes"@) == Some(JsonTree::Int(s.compressed_bytes as i128)),
        stats_tree(s).get("value_count"@) == Some(JsonTree::Int(s.value_count as i128)),
        stats_tree(s).get("null_count"@) == Some(JsonTree::Int(s.null_count as i128)),
        s.lower_bound matches Some(b) ==> stats_tree(s).get("lower_bound"@) == Some(
            JsonTree::Str(crate::types::hexcode::hex_text(b)),
        ),
        s.lower_bound is None ==> stats_tree(s).get("lower_bound"@) == Some(JsonTree::Null),
        s.upper_bound matches Some(b) ==> stats_tree(s).get("upper_bound"@) == Some(
            JsonTree::Str(crate::types::hexcode::hex_text(b)),
        ),
        s.upper_bound is None ==> stats_tree(s).get("upper_bound"@) == Some(JsonTree::Null),
{
    let m = stats_tree(s)->Obj_0;
    lemma_stats_tree(s);
    crate::json::lemma_member_at(m, 0);
    crate::json::lemma_member_at(m, 1);
    crate::json::lemma_member_at(m, 2);
    crate::json::lemma_member_at(m, 3);
    crate::json::lemma_member_at(m, 4);
    crate::json::lemma_member_at(m, 5);
}

/// Metadata that is read from an object is what the members of that object
/// say, each under its own name.
pub proof fn law_meta_is_read_from_its_names(t: JsonTree)
    requires
        t is Obj,
        meta_of(t) is Some,
    ensures
        ({
            let m = meta_of(t)->0;
            &&& t.get("level"@) == Some(JsonTree::Int(m.level.0 as i128))
            &&& t.get("seq_min"@) == Some(JsonTree::Int(m.seq_min as i128))
            &&& t.get("seq_max"@) == Some(JsonTree::Int(m.seq_max as i128))
            &&& t.get("key_min"@) matches Some(JsonTree::Str(s))
                && crate::types::hexcode::hex_decoded(s) == Some(m.key_min)
            &&& t.get("key_max"@) matches Some(JsonTree::Str(s))
                && crate::types::hexcode::hex_decoded(s) == Some(m.key_max)
            &&& t.get("num_rows"@) == Some(JsonTree::Int(m.num_rows as i128))
            &&& t.get("file_size"@) == Some(JsonTree::Int(m.file_size as i128))
            &&& m.dv_path matches Some(p) ==> t.get("dv_path"@) == Some(JsonTree::Str(p))
            &&& m.dv_path is None ==> t.get("dv_path"@) is None || t.get("dv_path"@) == Some(
                JsonTree::Null,
            )
            &&& m.dv_offset matches Some(n) ==> t.get("dv_offset"@) == Some(
                JsonTree::Int(n as i128),
            )
            &&& m.dv_offset is None ==> t.get("dv_offset"@) is None || t.get("dv_offset"@) == Some(
                JsonTree::Null,
            )
            &&& m.dv_length matches Some(n) ==> t.get("dv_length"@) == Some(
                JsonTree::Int(n as i128),
            )
            &&& m.dv_length is None ==> t.get("dv_length"@) is None || t.get("dv_length"@) == Some(
                JsonTree::Null,
            )
            &&& m.format == Some(FileFormat::Dual) ==> t.get("format"@) == Some(
                JsonTree::Str("dual"@),
            )
            &&& m.format == Some(FileFormat::Columnar) ==> t.get("format"@) == Some(
                JsonTree::Str("columnar"@),
            )
            &&& m.format is None ==> t.get("format"@) is None || t.get("format"@) == Some(
                JsonTree::Null,
            )
            &&& m.column_stats is None ==> t.get("column_stats"@) is None || t.get(
                "column_stats"@,
            ) == Some(JsonTree::Null)
            &&& m.column_stats matches Some(all) ==> (t.get("column_stats"@) matches Some(
                JsonTree::Arr(items),
            ) && items.len() == all.len() && forall|i: int|
                0 <= i < items.len() ==> stats_of(#[trigger] items[i]) == Some(all[i]))
        }),
{
}

/// Statistics that are read from an object are what the members of that object
/// say.
pub proof fn law_stats_are_read_from_their_names(t: JsonTree)
    requires
        t is Obj,
        stats_of(t) is Some,
    ensures
        ({
            let s = stats_of(t)->0;
            &&& t.get("field_id"@) == Some(JsonTree::Int(s.field_id as i128))
            &&& t.get("compressed_bytes"@) == Some(JsonTree::Int(s.compressed_bytes as i128))
            &&& t.get("value_count"@) == Some(JsonTree::Int(s.value_count as i128))
            &&& t.get("null_count"@) == Some(JsonTree::Int(s.null_count as i128))
            &&& s.lower_bound matches Some(b) ==> (t.get("lower_bound"@) matches Some(
                JsonTree::Str(x),
            ) && crate::types::hexcode::hex_decoded(x) == Some(b))
            &&& s.lower_bound is None ==> t.get("lower_bound"@) is None || t.get("lower_bound"@)
                == Some(JsonTree::Null)
            &&& s.upper_bound matches Some(b) ==> (t.get("upper_bound"@) matches Some(
                JsonTree::Str(x),
            ) && crate::types::hexcode::hex_decoded(x) == Some(b))
            &&& s.upper_bound is None ==> t.get("upper_bound"@) is None || t.get("upper_bound"@)
                == Some(JsonTree::Null)
        }),
{
}

/// An object with the required members in their types is read, whatever else
/// it holds, and what is not required may be absent or `null`.
pub proof fn law_required_members_are_enough(t: JsonTree)
    requires
        t is Obj,
        t.get("level"@) matches Some(JsonTree::Int(n)) && 0 <= n <= 255,
        t.get("seq_min"@) matches Some(JsonTree::Int(n)) && 0 <= n <= u64::MAX,
        t.get("seq_max"@) matches Some(JsonTree::Int(n)) && 0 <= n <= u64::MAX,
        t.get("key_min"@) matches Some(JsonTree::Str(s)) && crate::types::hexcode::hex_decoded(
            s,
        ) is Some,
        t.get("key_max"@) matches Some(JsonTree::Str(s)) && crate::types::hexcode::hex_decoded(
            s,
        ) is Some,
        t.get("num_rows"@) matches Some(JsonTree::Int(n)) && 0 <= n <= u64::MAX,
        t.get("file_size"@) matches Some(JsonTree::Int(n)) && 0 <= n <= u64::MAX,
        t.get("dv_path"@) is None || t.get("dv_path"@) == Some(JsonTree::Null) || (t.get(
            "dv_path"@,
        ) matches Some(JsonTree::Str(_))),
        t.get("dv_offset"@) is None || t.get("dv_offset"@) == Some(JsonTree::Null) || (t.get(
            "dv_offset"@,
        ) matches Some(JsonTree::Int(n)) && i64::MIN <= n <= i64::MAX),
        t.get("dv_length"@) is None || t.get("dv_length"@) == Some(JsonTree::Null) || (t.get(
            "dv_length"@,
        ) matches Some(JsonTree::Int(n)) && i64::MIN <= n <= i64::MAX),
        t.get("format"@) is None || t.get("format"@) == Some(JsonTree::Null) || t.get("format"@)
            == Some(JsonTree::Str("dual"@)) || t.get("format"@) == Some(JsonTree::Str("columnar"@)),
        t.get("column_stats"@) is None || t.get("column_stats"@) == Some(JsonTree::Null),
    ensures
        meta_of(t) is Some,
{
}

/// Reading a text gives the metadata of its document, and fails with a
/// corruption where the text is no JSON or its document no metadata.
pub proof fn law_text_is_read_as_its_document(text: Seq<char>)
    ensures
        crate::json::json_parsed(text) matches JsonReading::Document(t) ==> (meta_of(t) matches Some(
            m,
        ) ==> meta_parsed(text) == Ok::<MetaView, ErrorView>(m)) && (meta_of(t) is None ==> (
        meta_parsed(text) matches Err(e) && e is Corruption)),
        crate::json::json_parsed(text) matches JsonReading::Failure(m) ==> meta_parsed(text)
            == Err::<MetaView, ErrorView>(ErrorView::Corruption(m)),
{
}

/// Metadata can be an array of its fields in their order, the layout stamp and
/// the statistics left out or not; each place then gives its own field.
pub proof fn law_meta_is_read_from_its_places(items: Seq<JsonTree>)
    requires
        meta_of(JsonTree::Arr(items)) is Some,
    ensures
        ({
            let m = meta_of(JsonTree::Arr(items))->0;
            &&& 10 <= items.len() <= 12
            &&& items[0] == JsonTree::Int(m.level.0 as i128)
            &&& items[1] == JsonTree::Int(m.seq_min as i128)
            &&& items[2] == JsonTree::Int(m.seq_max as i128)
            &&& items[3] matches JsonTree::Str(s) && crate::types::hexcode::hex_decoded(s) == Some(
                m.key_min,
            )
            &&& items[4] matches JsonTree::Str(s) && crate::types::hexcode::hex_decoded(s) == Some(
                m.key_max,
            )
            &&& items[5] == JsonTree::Int(m.num_rows as i128)
            &&& items[6] == JsonTree::Int(m.file_size as i128)
            &&& items[7] == (match m.dv_path {
                Some(p) => JsonTree::Str(p),
                None => JsonTree::Null,
            })
            &&& items[8] == (match m.dv_offset {
                Some(n) => JsonTree::Int(n as i128),
                None => JsonTree::Null,
            })
            &&& items[9] == (match m.dv_length {
                Some(n) => JsonTree::Int(n as i128),
                None => JsonTree::Null,
            })
            &&& items.len() == 10 ==> m.format is None
            &&& items.len() <= 11 ==> m.column_stats is None
            &&& items.len() > 10 ==> items[10] == (match m.format {
                Some(FileFormat::Dual) => JsonTree::Str("dual"@),
                Some(FileFormat::Columnar) => JsonTree::Str("columnar"@),
                None => JsonTree::Null,
            })
            &&& items.len() == 12 && m.column_stats is None ==> items[11] is Null
            &&& m.column_stats matches Some(all) ==> (items[11] matches JsonTree::Arr(each)
                && each.len() == all.len() && forall|i: int|
                0 <= i < each.len() ==> stats_of(#[trigger] each[i]) == Some(all[i]))
        }),
{
}

/// An array of the fields in their types is read, with or without the layout
/// stamp and the statistics.
pub proof fn law_fields_in_their_places_are_enough(items: Seq<JsonTree>)
    requires
        10 <= items.len() <= 12,
        items[0] matches JsonTree::Int(n) && 0 <= n <= 255,
        items[1] matches JsonTree::Int(n) && 0 <= n <= u64::MAX,
        items[2] matches JsonTree::Int(n) && 0 <= n <= u64::MAX,
        items[3] matches JsonTree::Str(s) && crate::types::hexcode::hex_decoded(s) is Some,
        items[4] matches JsonTree::Str(s) && crate::types::hexcode::hex_decoded(s) is Some,
        items[5] matches JsonTree::Int(n) && 0 <= n <= u64::MAX,
        items[6] matches JsonTree::Int(n) && 0 <= n <= u64::MAX,
        items[7] is Null || items[7] is Str,
        items[8] is Null || (items[8] matches JsonTree::Int(n) && i64::MIN <= n <= i64::MAX),
        items[9] is Null || (items[9] matches JsonTree::Int(n) && i64::MIN <= n <= i64::MAX),
        items.len() > 10 ==> items[10] is Null || items[10] == JsonTree::Str("dual"@) || items[10]
            == JsonTree::Str("columnar"@),
        items.len() > 11 ==> items[11] is Null || (items[11] matches JsonTree::Arr(each) && forall|
            i: int,
        |
            0 <= i < each.len() ==> stats_of(#[trigger] each[i]) is Some),
    ensures
        meta_of(JsonTree::Arr(items)) is Some,
{
}

/// Statistics are read from an object whose required members have their types,
/// and from an array of at least the first four fields.
pub proof fn law_required_statistics_are_enough(t: JsonTree, items: Seq<JsonTree>)
    ensures
        t is Obj && (t.get("field_id"@) matches Some(JsonTree::Int(n)) && i32::MIN <= n <= i32::MAX)
            && (t.get("compressed_bytes"@) matches Some(JsonTree::Int(n)) && 0 <= n <= u64::MAX)
            && (t.get("value_count"@) matches Some(JsonTree::Int(n)) && 0 <= n <= u64::MAX) && (
        t.get("null_count"@) matches Some(JsonTree::Int(n)) && 0 <= n <= u64::MAX) && (t.get(
            "lower_bound"@,
        ) is None || t.get("lower_bound"@) == Some(JsonTree::Null) || (t.get(
            "lower_bound"@,
        ) matches Some(JsonTree::Str(s)) && crate::types::hexcode::hex_decoded(s) is Some)) && (
        t.get("upper_bound"@) is None || t.get("upper_bound"@) == Some(JsonTree::Null) || (t.get(
            "upper_bound"@,
        ) matches Some(JsonTree::Str(s)) && crate::types::hexcode::hex_decoded(s) is Some))
            ==> stats_of(t) is Some,
        items.len() == 4 && (items[0] matches JsonTree::Int(n) && i32::MIN <= n <= i32::MAX) && (
        items[1] matches JsonTree::Int(n) && 0 <= n <= u64::MAX) && (
        items[2] matches JsonTree::Int(n) && 0 <= n <= u64::MAX) && (
        items[3] matches JsonTree::Int(n) && 0 <= n <= u64::MAX) ==> stats_of(JsonTree::Arr(items))
            == Some(
            (StatsView {
                field_id: items[0]->Int_0 as i32,
                compressed_bytes: items[1]->Int_0 as u64,
                value_count: items[2]->Int_0 as u64,
                null_count: items[3]->Int_0 as u64,
                lower_bound: None,
                upper_bound: None,
            }),
        ),
{
}

/// Statistics that are read from an array are what its places say; the bounds
/// may be left out.
pub proof fn law_stats_are_read_from_their_places(items: Seq<JsonTree>)
    requires
        stats_of(JsonTree::Arr(items)) is Some,
    ensures
        ({
            let s = stats_of(JsonTree::Arr(items))->0;
            &&& 4 <= items.len() <= 6
            &&& items[0] == JsonTree::Int(s.field_id as i128)
            &&& items[1] == JsonTree::Int(s.compressed_bytes as i128)
            &&& items[2] == JsonTree::Int(s.value_count as i128)
            &&& items[3] == JsonTree::Int(s.null_count as i128)
            &&& s.lower_bound is None ==> items.len() == 4 || items[4] is Null
            &&& s.lower_bound matches Some(b) ==> items.len() > 4 && (
            items[4] matches JsonTree::Str(x) && crate::types::hexcode::hex_decoded(x) == Some(b))
            &&& s.upper_bound is None ==> items.len() <= 5 || items[5] is Null
            &&& s.upper_bound matches Some(b) ==> items.len() > 5 && (
            items[5] matches JsonTree::Str(x) && crate::types::hexcode::hex_decoded(x) == Some(b))
        }),
{
}

/// The statistics of an object's member are read where each of them can be.
pub proof fn law_all_statistics_are_read(t: JsonTree, items: Seq<JsonTree>)
    requires
        t is Obj,
        t.get("column_stats"@) == Some(JsonTree::Arr(items)),
    ensures
        (forall|i: int| 0 <= i < items.len() ==> stats_of(#[trigger] items[i]) is Some) ==> (
        all_stats_at(t, "column_stats"@, 11).settled() matches Some(Some(all)) && all.len()
            == items.len() && forall|i: int|
            0 <= i < items.len() ==> stats_of(#[trigger] items[i]) == Some(all[i])),
        (exists|i: int| 0 <= i < items.len() && stats_of(#[trigger] items[i]) is None)
            ==> all_stats_at(t, "column_stats"@, 11).settled() is None && meta_of(t) is None,
{
}

} // verus!
