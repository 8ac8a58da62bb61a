//! Uniting new deletions of a data file with those that it has already.

use vstd::prelude::*;
use vstd::set_lib::*;
use vstd::string::*;

use crate::iceberg::deletion_vector::{DeletionVector, PuffinEncoded};
use crate::iceberg::manifest::{Manifest, ManifestEntry};
use crate::paths::{file_stem, join, parent};
use crate::text::{dec_i64, dec_u64, joined};
use crate::types::error::{ErrorView, MeruError, Result};

verus! {

/// The part of a Puffin file that holds a deletion vector.
#[derive(Debug)]
pub struct BlobRange {
    pub dv_path: String,
    pub offset: i64,
    pub length: i64,
}

/// Every set of 32-bit positions is finite.
proof fn lemma_rows_finite(rows: Set<u32>)
    ensures
        rows.finite(),
{
    let ints = set_int_range(0, 0x1_0000_0000);
    lemma_int_range(0, 0x1_0000_0000);
    let all = ints.map(|i: int| i as u32);
    ints.lemma_map_finite(|i: int| i as u32);
    assert forall|r: u32| rows.contains(r) implies all.contains(r) by {
        assert(ints.contains(r as int));
        assert((r as int) as u32 == r);
    }
    assert(rows.subset_of(all));
    vstd::set_lib::lemma_set_subset_finite(all, rows);
}

/// A union of deletions deletes at least what either part deletes: rows that
/// were deleted never come back.
pub proof fn law_union_never_shrinks(a: Set<u32>, b: Set<u32>)
    ensures
        a.subset_of(a.union(b)),
        b.subset_of(a.union(b)),
        a.union(b).len() >= a.len(),
        a.union(b).len() >= b.len(),
{
    lemma_rows_finite(a.union(b));
    lemma_len_subset(a, a.union(b));
    lemma_len_subset(b, a.union(b));
}

/// Unites the deletions that a file has with new ones. A result smaller than
/// either part would mean lost bits, and is refused; there is none.
pub fn merge_dv(path: &str, existing: DeletionVector, new_dv: &DeletionVector) -> (r: Result<
    DeletionVector,
>)
    ensures
        r matches Ok(dv) && dv@ == existing@.union(new_dv@),
{
    let existing_card: u64 = existing.cardinality();
    let new_card: u64 = new_dv.cardinality();
    let mut merged = existing;
    merged.union_with(new_dv);
    let merged_card: u64 = merged.cardinality();
    proof {
        law_union_never_shrinks(existing@, new_dv@);
    }
    if merged_card < existing_card || merged_card < new_card {
        let mut m = joined("DV union for '", path);
        m.append("' shrank: existing=");
        m.append(dec_u64(existing_card).as_str());
        m.append(" new=");
        m.append(dec_u64(new_card).as_str());
        m.append(" merged=");
        m.append(dec_u64(merged_card).as_str());
        return Err(MeruError::Corruption(m));
    }
    Ok(merged)
}

/// The name of the Puffin file for a data file at a version.
pub open spec fn puffin_name(parquet_path: Seq<char>, version: i64) -> Seq<char> {
    let stem = match crate::paths::stem_of(parquet_path) {
        Some(s) => s,
        None => "unknown"@,
    };
    stem + ".dv-"@ + crate::text::dec_int(version as int) + ".puffin"@
}

/// The directory of the Puffin file for a data file.
pub open spec fn puffin_dir(parquet_path: Seq<char>) -> Seq<char> {
    match crate::paths::parent_of(parquet_path) {
        Some(d) => d,
        None => "data/L0"@,
    }
}

/// The name of the Puffin file for a data file at a version: the data file's
/// stem with the version. Versions differ between attempts, so attempts never
/// collide.
pub fn puffin_file_name(parquet_path: &str, version: i64) -> (r: String)
    ensures
        r@ == puffin_name(parquet_path@, version),
{
    let mut r = match file_stem(parquet_path) {
        Some(s) => s,
        None => "unknown".to_owned(),
    };
    r.append(".dv-");
    r.append(dec_i64(version).as_str());
    r.append(".puffin");
    r
}

/// The directory of the Puffin file: that of the data file.
fn puffin_directory(parquet_path: &str) -> (r: String)
    ensures
        r@ == puffin_dir(parquet_path@),
{
    match parent(parquet_path) {
        Some(d) => d,
        None => "data/L0".to_owned(),
    }
}

/// The object key of the Puffin file.
pub fn puffin_object_key(parquet_path: &str, version: i64) -> (r: String)
    ensures
        r@ == puffin_dir(parquet_path@) + "/"@ + puffin_name(parquet_path@, version),
{
    let mut r = puffin_directory(parquet_path);
    r.append("/");
    r.append(puffin_file_name(parquet_path, version).as_str());
    r
}

/// The path of the Puffin file, relative to the table's directory.
pub fn puffin_relative_path(parquet_path: &str, version: i64) -> (r: String)
    ensures
        r@ == crate::paths::joined_path(
            puffin_dir(parquet_path@),
            puffin_name(parquet_path@, version),
        ),
{
    join(
        puffin_directory(parquet_path).as_str(),
        puffin_file_name(parquet_path, version).as_str(),
    )
}

/// Two versions never share a Puffin file name.
pub proof fn law_puffin_names_differ_by_version(parquet_path: Seq<char>, a: i64, b: i64)
    requires
        puffin_name(parquet_path, a) == puffin_name(parquet_path, b),
    ensures
        a == b,
{
    let stem = match crate::paths::stem_of(parquet_path) {
        Some(s) => s,
        None => "unknown"@,
    };
    let x = puffin_name(parquet_path, a);
    let y = puffin_name(parquet_path, b);
    let from = (stem + ".dv-"@).len() as int;
    let tail = ".puffin"@.len() as int;
    let da = crate::text::dec_int(a as int);
    let db = crate::text::dec_int(b as int);
    assert(x.len() == from + da.len() + tail);
    assert(y.len() == from + db.len() + tail);
    assert(x.subrange(from, x.len() - tail) =~= da);
    assert(y.subrange(from, y.len() - tail) =~= db);
    crate::text::lemma_dec_int_injective(a as int, b as int);
}

/// The recorded deletion vector of an entry: present when path, offset and
/// length are all recorded.
pub open spec fn recorded_dv(e: ManifestEntry) -> Option<(Seq<char>, i64, i64)> {
    if e.dv_path is Some && e.dv_offset is Some && e.dv_length is Some {
        Some((e.dv_path->0@, e.dv_offset->0, e.dv_length->0))
    } else {
        None
    }
}

/// A deletion vector counts as recorded exactly when the entry gives its
/// path, its offset and its length, at whatever level the file is, and then
/// it is what these three say.
pub proof fn law_recorded_when_all_three_are_given(e: ManifestEntry)
    ensures
        recorded_dv(e) is Some <==> e.dv_path is Some && e.dv_offset is Some && e.dv_length is Some,
        recorded_dv(e) matches Some(d) ==> d.0 == e.dv_path->0@ && d.1 == e.dv_offset->0 && d.2
            == e.dv_length->0,
{
}

/// The error for a recorded range with a negative end.
pub open spec fn negative_range_error(path: Seq<char>, offset: i64, length: i64) -> ErrorView {
    ErrorView::Corruption(
        "existing DV for '"@ + path + "' has negative offset ("@ + crate::text::dec_int(
            offset as int,
        ) + ") or length ("@ + crate::text::dec_int(length as int) + ")"@,
    )
}

fn negative_range(path: &str, offset: i64, length: i64) -> (r: MeruError)
    ensures
        r@ == negative_range_error(path@, offset, length),
{
    let mut m = joined("existing DV for '", path);
    m.append("' has negative offset (");
    m.append(dec_i64(offset).as_str());
    m.append(") or length (");
    m.append(dec_i64(length).as_str());
    m.append(")");
    MeruError::Corruption(m)
}

/// The error for new deletions of a file that the table does not have.
pub open spec fn no_live_entry_error(path: Seq<char>) -> ErrorView {
    ErrorView::InvalidArgument(
        "ObjectStoreCatalog::commit: txn.dvs references '"@ + path
            + "' but no live entry exists in the base manifest"@,
    )
}

/// Which blob of the object store holds the deletions that a file has
/// already; `None` when it has none. The file must be live in the base
/// manifest.
pub fn existing_blob(base: &Manifest, parquet_path: &str) -> (r: Result<Option<BlobRange>>)
    ensures
        match r {
            Ok(None) => exists|i: int| #[trigger]
                crate::iceberg::manifest::first_live(base.entries@, parquet_path@, i)
                    && recorded_dv(base.entries@[i]) is None,
            Ok(Some(b)) => exists|i: int| #[trigger]
                crate::iceberg::manifest::first_live(base.entries@, parquet_path@, i)
                    && recorded_dv(base.entries@[i]) == Some((b.dv_path@, b.offset, b.length))
                    && b.offset >= 0 && b.length >= 0,
            Err(e) => {
                ||| crate::iceberg::manifest::none_live(base.entries@, parquet_path@) && e@
                    == no_live_entry_error(parquet_path@)
                ||| exists|i: int| #[trigger]
                    crate::iceberg::manifest::first_live(base.entries@, parquet_path@, i)
                        && (recorded_dv(base.entries@[i]) matches Some(d) && (d.1 < 0 || d.2 < 0)
                        && e@ == negative_range_error(parquet_path@, d.1, d.2))
            },
        },
        forall|i: int|
            0 <= i < base.entries@.len() && (#[trigger] base.entries@[i]).path@ == parquet_path@
                && base.entries@[i].status@ != "deleted"@ && (forall|k: int|
                0 <= k < i ==> (#[trigger] base.entries@[k]).path@ != parquet_path@
                    || base.entries@[k].status@ == "deleted"@) && base.entries@[i].dv_path is Some
                && (base.entries@[i].dv_offset matches Some(o) && o >= 0)
                && (base.entries@[i].dv_length matches Some(n) && n >= 0) ==> (r matches Ok(
                Some(b),
            ) && b.dv_path@ == base.entries@[i].dv_path->0@ && Some(b.offset)
                == base.entries@[i].dv_offset && Some(b.length) == base.entries@[i].dv_length),
{
    let i: usize = match base.find_live(parquet_path) {
        Some(i) => i,
        None => {
            let mut m = joined("ObjectStoreCatalog::commit: txn.dvs references '", parquet_path);
            m.append("' but no live entry exists in the base manifest");
            return Err(MeruError::InvalidArgument(m));
        },
    };
    assert(crate::iceberg::manifest::first_live(base.entries@, parquet_path@, i as int));
    let entry = &base.entries[i];
    match (&entry.dv_path, entry.dv_offset, entry.dv_length) {
        (Some(dv_path), Some(offset), Some(length)) => {
            if offset < 0 || length < 0 {
                return Err(negative_range(parquet_path, offset, length));
            }
            Ok(Some(BlobRange { dv_path: dv_path.clone(), offset, length }))
        },
        _ => Ok(None),
    }
}

/// The deletion vector at a recorded range of a Puffin file on disk, or what
/// is wrong with that range.
pub open spec fn existing_decoded(
    path: Seq<char>,
    offset: i64,
    length: i64,
    puffin: Seq<u8>,
) -> std::result::Result<Set<u32>, ErrorView> {
    if offset < 0 || length < 0 {
        Err(negative_range_error(path, offset, length))
    } else if offset + length > puffin.len() {
        Err(
            ErrorView::Corruption(
                "existing DV blob for '"@ + path + "' at offset "@ + crate::text::dec_int(
                    offset as int,
                ) + " length "@ + crate::text::dec_int(length as int)
                    + " exceeds puffin file size "@ + crate::text::dec_nat(puffin.len()),
            ),
        )
    } else {
        crate::iceberg::deletion_vector::blob_decoded(
            puffin.subrange(offset as int, offset + length),
        )
    }
}

/// Reads the deletions that a file has already from the bytes of its Puffin
/// file.
pub fn decode_existing(path: &str, offset: i64, length: i64, puffin: &[u8]) -> (r: Result<
    DeletionVector,
>)
    ensures
        match r {
            Ok(dv) => existing_decoded(path@, offset, length, puffin@) == Ok::<
                Set<u32>,
                ErrorView,
            >(dv@),
            Err(e) => existing_decoded(path@, offset, length, puffin@) == Err::<
                Set<u32>,
                ErrorView,
            >(e@),
        },
{
    if offset < 0 || length < 0 {
        return Err(negative_range(path, offset, length));
    }
    let end: u64 = offset as u64 + length as u64;
    if end > puffin.len() as u64 {
        let mut m = joined("existing DV blob for '", path);
        m.append("' at offset ");
        m.append(dec_i64(offset).as_str());
        m.append(" length ");
        m.append(dec_i64(length).as_str());
        m.append(" exceeds puffin file size ");
        m.append(dec_u64(puffin.len() as u64).as_str());
        return Err(MeruError::Corruption(m));
    }
    DeletionVector::from_puffin_blob(
        vstd::slice::slice_subrange(puffin, offset as usize, end as usize),
    )
}

/// The rows that a commit deletes in a file: those deleted already and the
/// new ones.
pub open spec fn united(existing: Option<DeletionVector>, new_dv: DeletionVector) -> Set<u32> {
    match existing {
        Some(dv) => dv@.union(new_dv@),
        None => new_dv@,
    }
}

/// Encodes the deletions of a file at a version: those that it has already
/// and the new ones. Reading the Puffin file gives both back.
pub fn encode_merged(
    parquet_path: &str,
    existing: Option<DeletionVector>,
    new_dv: &DeletionVector,
    version: i64,
) -> (r: Result<PuffinEncoded>)
    ensures
        match r {
            Ok(p) => {
                &&& p.is_puffin(united(existing, *new_dv), parquet_path@, version, version)
                &&& crate::iceberg::deletion_vector::blob_decoded(p.blob()) == Ok::<
                    Set<u32>,
                    ErrorView,
                >(united(existing, *new_dv))
                &&& crate::iceberg::deletion_vector::puffin_decoded(p.bytes@) == Ok::<
                    Set<u32>,
                    ErrorView,
                >(united(existing, *new_dv))
                &&& crate::iceberg::deletion_vector::puffin_data_file(p.bytes@) == Ok::<
                    Seq<char>,
                    ErrorView,
                >(parquet_path@)
            },
            Err(e) => crate::iceberg::deletion_vector::not_encodable(
                united(existing, *new_dv),
                parquet_path@,
                version,
                version,
                e@,
            ),
        },
        existing is None ==> match r {
            Ok(_) => crate::iceberg::deletion_vector::encode_fault(
                new_dv.blob_size(),
                parquet_path@,
                version,
                version,
            ) is None,
            Err(e) => crate::iceberg::deletion_vector::encode_fault(
                new_dv.blob_size(),
                parquet_path@,
                version,
                version,
            ) == Some(e@),
        },
{
    let all = match existing {
        Some(dv) => match merge_dv(parquet_path, dv, new_dv) {
            Ok(m) => m,
            Err(e) => return Err(e),
        },
        None => new_dv.clone(),
    };
    all.encode_puffin(parquet_path, version, version)
}

/// The deletions that a file has are read from the bytes of their range, no
/// more and no fewer; a range that does not lie in the file is corrupt,
/// whatever the bytes.
pub proof fn law_existing_dv_is_read_from_its_range(
    path: Seq<char>,
    offset: i64,
    length: i64,
    head: Seq<u8>,
    blob: Seq<u8>,
    tail: Seq<u8>,
)
    ensures
        offset == head.len() && length == blob.len() ==> existing_decoded(
            path,
            offset,
            length,
            head + blob + tail,
        ) == crate::iceberg::deletion_vector::blob_decoded(blob),
        offset < 0 || length < 0 || offset + length > (head + blob + tail).len() ==> (
        existing_decoded(path, offset, length, head + blob + tail) matches Err(e)
            && e is Corruption),
{
    let all = head + blob + tail;
    if offset == head.len() && length == blob.len() {
        assert(all.subrange(offset as int, offset + length) =~= blob);
    }
}

/// A commit deletes a row exactly when it was deleted already or is deleted
/// now.
pub proof fn law_union_deletes_old_and_new(
    existing: Option<DeletionVector>,
    new_dv: DeletionVector,
    row: u32,
)
    ensures
        united(existing, new_dv).contains(row) <==> new_dv@.contains(row) || (
        existing matches Some(dv) && dv@.contains(row)),
{
}

/// The Puffin file of a data file lies beside it and is named after it and the
/// version.
pub proof fn law_puffin_lies_beside_its_data_file(
    dir: Seq<char>,
    stem: Seq<char>,
    extension: Seq<char>,
    version: i64,
)
    requires
        stem.len() > 0,
        extension.len() > 0,
        forall|i: int| 0 <= i < stem.len() ==> #[trigger] stem[i] != '/',
        forall|i: int|
            0 <= i < extension.len() ==> #[trigger] extension[i] != '/' && extension[i] != '.',
        dir.len() > 0,
        dir.last() != '/',
        dir.len() > 1 && dir.last() == '.' ==> dir[dir.len() - 2] != '/',
    ensures
        ({
            let path = dir + seq!['/'] + stem + seq!['.'] + extension;
            let name = puffin_name(path, version);
            &&& puffin_dir(path) == dir
            &&& name == stem + ".dv-"@ + crate::text::dec_int(version as int) + ".puffin"@
        }),
{
    let name = stem + seq!['.'] + extension;
    let path = dir + seq!['/'] + stem + seq!['.'] + extension;
    assert forall|i: int| 0 <= i < name.len() implies #[trigger] name[i] != '/' by {
        if i < stem.len() {
            assert(name[i] == stem[i]);
        } else if i > stem.len() {
            assert(name[i] == extension[i - stem.len() - 1]);
        }
    }
    assert(name.len() > 1);
    assert(path =~= dir + seq!['/'] + name);
    crate::paths::law_parent_and_name_of_a_file(dir, name);
    crate::paths::law_stem_and_extension(dir, stem, extension, extension);
}

/// The errors of a commit's deletions name the data file, and the range where
/// that is at fault.
pub proof fn law_deletion_errors_name_file_and_range(
    path: Seq<char>,
    offset: i64,
    length: i64,
    puffin: Seq<u8>,
)
    ensures
        negative_range_error(path, offset, length) matches ErrorView::Corruption(m)
            && crate::text::contains_text(m, path) && crate::text::contains_text(
            m,
            "offset ("@ + crate::text::dec_int(offset as int) + ")"@,
        ) && crate::text::contains_text(
            m,
            "length ("@ + crate::text::dec_int(length as int) + ")"@,
        ),
        no_live_entry_error(path) matches ErrorView::InvalidArgument(m)
            && crate::text::contains_text(m, path),
        offset >= 0 && length >= 0 && offset + length > puffin.len() ==> (existing_decoded(
            path,
            offset,
            length,
            puffin,
        ) matches Err(ErrorView::Corruption(m)) && crate::text::contains_text(m, path)
            && crate::text::contains_text(m, crate::text::dec_nat(puffin.len()))),
{
    let o = crate::text::dec_int(offset as int);
    let n = crate::text::dec_int(length as int);
    let m = negative_range_error(path, offset, length)->Corruption_0;
    let a = "existing DV for '"@;
    let b = "' has negative offset ("@;
    let c = ") or length ("@;
    let d = ")"@;
    reveal_strlit("' has negative offset (");
    reveal_strlit("' has negative ");
    reveal_strlit("offset (");
    reveal_strlit(") or length (");
    reveal_strlit(") or ");
    reveal_strlit(" or length (");
    reveal_strlit(" or ");
    reveal_strlit("length (");
    reveal_strlit(")");
    assert(b =~= "' has negative "@ + "offset ("@);
    assert(c =~= ") or "@ + "length ("@);
    assert(c =~= ")"@ + " or length ("@);
    assert(m =~= a + path + (b + o + c + n + d));
    crate::text::lemma_contains_text(a, path, b + o + c + n + d);
    assert(m =~= (a + path + "' has negative "@) + ("offset ("@ + o + ")"@) + (" or length ("@ + n
        + d));
    crate::text::lemma_contains_text(
        a + path + "' has negative "@,
        "offset ("@ + o + ")"@,
        " or length ("@ + n + d,
    );
    let none = Seq::<char>::empty();
    assert(m =~= (a + path + b + o + ") or "@) + ("length ("@ + n + ")"@) + none);
    crate::text::lemma_contains_text(a + path + b + o + ") or "@, "length ("@ + n + ")"@, none);
    let x = "ObjectStoreCatalog::commit: txn.dvs references '"@;
    let y = "' but no live entry exists in the base manifest"@;
    crate::text::lemma_contains_text(x, path, y);
    if offset >= 0 && length >= 0 && offset + length > puffin.len() {
        let size = crate::text::dec_nat(puffin.len());
        let t = existing_decoded(path, offset, length, puffin)->Err_0->Corruption_0;
        let p = "existing DV blob for '"@;
        let q = "' at offset "@ + o + " length "@ + n + " exceeds puffin file size "@;
        assert(t =~= p + path + (q + size));
        crate::text::lemma_contains_text(p, path, q + size);
        assert(t =~= (p + path + q) + size + none);
        crate::text::lemma_contains_text(p + path + q, size, none);
    }
}

} // verus!
