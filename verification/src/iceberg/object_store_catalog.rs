//! Decisions of the object-store catalog: where discovery begins, what an
//! open or a refresh loads, and which manifests can be reclaimed.

use vstd::prelude::*;
use vstd::string::*;
use vstd::utf8::*;

use crate::iceberg::head_discovery::{Head, HeadSearch, MAX_PROBE};
use crate::iceberg::object_store_commit::manifest_path;
use crate::text::{
    complain_of_number, dec_i64, joined, parse_trimmed_i64, trimmed_text, utf8_text,
};
use crate::types::error::{ErrorView, MeruError, Result};

verus! {

/// The key of the low-water pointer: the lowest manifest version that a
/// reclaim left. Discovery begins there instead of at version 1.
pub const LOW_WATER_PATH: &'static str = "metadata/low_water.txt";

/// What the low-water pointer says.
pub open spec fn low_water(bytes: Seq<u8>) -> std::result::Result<i64, ErrorView> {
    if !valid_utf8(bytes) {
        Err(
            ErrorView::Corruption(
                "low_water.txt not UTF-8: "@ + crate::text::utf8_complaint(bytes),
            ),
        )
    } else {
        match crate::text::parsed_i64(crate::text::trimmed(decode_utf8(bytes))) {
            None => Err(
                ErrorView::Corruption(
                    "low_water.txt not an integer: "@ + crate::text::number_complaint(
                        crate::text::trimmed(decode_utf8(bytes)),
                    ),
                ),
            ),
            Some(v) => if v < 1 {
                Err(
                    ErrorView::Corruption(
                        "low_water.txt contains "@ + crate::text::dec_int(v as int)
                            + " \u{2014} must be \u{2265} 1"@,
                    ),
                )
            } else {
                Ok(v)
            },
        }
    }
}

/// Where discovery begins, given what reading the pointer gave. A pointer
/// that cannot be read counts as never written: discovery begins at 1.
pub fn discovery_start(pointer: Option<&[u8]>) -> (r: Result<i64>)
    ensures
        match pointer {
            None => r == Ok::<i64, MeruError>(1),
            Some(bytes) => match r {
                Ok(v) => low_water(bytes@) == Ok::<i64, ErrorView>(v),
                Err(e) => low_water(bytes@) == Err::<i64, ErrorView>(e@),
            },
        },
{
    let bytes: &[u8] = match pointer {
        None => return Ok(1),
        Some(b) => b,
    };
    let text = match utf8_text(bytes) {
        Ok(t) => t,
        Err(m) => {
            return Err(MeruError::Corruption(joined("low_water.txt not UTF-8: ", m.as_str())));
        },
    };
    match parse_trimmed_i64(text) {
        None => {
            let m = complain_of_number(trimmed_text(text).as_str());
            Err(MeruError::Corruption(joined("low_water.txt not an integer: ", m.as_str())))
        },
        Some(v) => {
            if v < 1 {
                let mut m = joined("low_water.txt contains ", dec_i64(v).as_str());
                m.append(" \u{2014} must be \u{2265} 1");
                Err(MeruError::Corruption(m))
            } else {
                Ok(v)
            }
        },
    }
}

/// What opening a catalog does once HEAD is known.
#[derive(Debug)]
pub enum OpenStep {
    /// The store is empty: create version 1 at this key, with no parent.
    WriteGenesis { path: String },
    /// Load the manifest at this key.
    Load { path: String },
}

/// The version and sequence number of the first manifest.
pub const GENESIS_VERSION: i64 = 1;

/// What opening a catalog does once HEAD is known.
pub fn open_step(head: Head) -> (r: OpenStep)
    ensures
        match r {
            OpenStep::WriteGenesis { path } => head == 0 && path@
                == crate::iceberg::object_store_commit::manifest_key(GENESIS_VERSION),
            OpenStep::Load { path } => head != 0 && path@
                == crate::iceberg::object_store_commit::manifest_key(head),
        },
        r matches OpenStep::WriteGenesis { path } ==> path@
            == crate::iceberg::object_store_commit::manifest_key(1),
{
    if head == 0 {
        OpenStep::WriteGenesis { path: manifest_path(GENESIS_VERSION) }
    } else {
        OpenStep::Load { path: manifest_path(head) }
    }
}

/// The key that a refresh loads. A catalog that is open is not empty, so a
/// HEAD of 0 is corruption.
pub fn refresh_path(head: Head) -> (r: Result<String>)
    ensures
        match r {
            Ok(path) => head != 0 && path@ == crate::iceberg::object_store_commit::manifest_key(
                head,
            ),
            Err(e) => head == 0 && e@ == ErrorView::Corruption(
                "refresh: HEAD discovery returned 0 against a non-empty catalog"@,
            ),
        },
{
    if head == 0 {
        return Err(
            MeruError::Corruption(
                "refresh: HEAD discovery returned 0 against a non-empty catalog".to_owned(),
            ),
        );
    }
    Ok(manifest_path(head))
}

/// A reclaim of old manifests. The pointer is written before anything is
/// deleted, so that a crash in between leaves a catalog that can be found.
#[derive(Debug)]
pub struct ReclaimPlan {
    /// The lowest version that stays; what the pointer will say.
    pub low_water: i64,
    /// The versions to delete.
    pub versions: Vec<i64>,
}

impl ReclaimPlan {
    /// The text of the pointer.
    pub fn pointer_text(&self) -> (r: String)
        ensures
            r@ == crate::text::dec_int(self.low_water as int),
    {
        dec_i64(self.low_water)
    }
}

/// The newest version that a reclaim deletes.
pub open spec fn cutoff(head: i64, keep_recent: usize) -> int {
    head - keep_recent
}

/// Which manifests to delete so that the newest `keep_recent` stay; `None`
/// when there are no others. Keeping none would strand all data.
pub fn plan_reclaim(head: Head, keep_recent: usize) -> (r: Result<Option<ReclaimPlan>>)
    ensures
        match r {
            Err(e) => keep_recent == 0 && e@ == ErrorView::InvalidArgument(
                "ObjectStoreCatalog::reclaim_old_manifests: keep_recent must be \u{2265} 1 (deleting every manifest would strand all data)"@,
            ),
            Ok(None) => keep_recent > 0 && cutoff(head, keep_recent) <= 0,
            Ok(Some(p)) => {
                &&& keep_recent > 0
                &&& cutoff(head, keep_recent) > 0
                &&& p.low_water == cutoff(head, keep_recent) + 1
                &&& p.versions@ == Seq::new(
                    cutoff(head, keep_recent) as nat,
                    |i: int| (i + 1) as i64,
                )
            },
        },
{
    if keep_recent == 0 {
        return Err(
            MeruError::InvalidArgument(
                "ObjectStoreCatalog::reclaim_old_manifests: keep_recent must be \u{2265} 1 (deleting every manifest would strand all data)".to_owned(),
            ),
        );
    }
    if head <= 0 || keep_recent as u64 >= head as u64 {
        return Ok(None);
    }
    let last: i64 = head - keep_recent as i64;
    let mut versions: Vec<i64> = Vec::new();
    let mut v: i64 = 0;
    while v < last
        invariant
            0 <= v <= last,
            versions@ == Seq::new(v as nat, |i: int| (i + 1) as i64),
        decreases last - v,
    {
        v = v + 1;
        versions.push(v);
        assert(versions@ =~= Seq::new(v as nat, |i: int| (i + 1) as i64));
    }
    Ok(Some(ReclaimPlan { low_water: last + 1, versions }))
}

/// A reclaim leaves exactly the newest `keep_recent` versions, HEAD among
/// them, and the pointer names the lowest of these.
pub proof fn law_reclaim_keeps_the_newest(head: i64, keep_recent: usize, v: i64)
    requires
        keep_recent > 0,
        cutoff(head, keep_recent) > 0,
        1 <= v <= head,
    ensures
        ({
            let deleted = Seq::new(cutoff(head, keep_recent) as nat, |i: int| (i + 1) as i64);
            let low = cutoff(head, keep_recent) + 1;
            &&& deleted.contains(v) <==> v <= head - keep_recent
            &&& !deleted.contains(v) <==> low <= v
            &&& 1 <= low <= head
            &&& head - low + 1 == keep_recent
        }),
{
    let deleted = Seq::new(cutoff(head, keep_recent) as nat, |i: int| (i + 1) as i64);
    if v <= head - keep_recent {
        assert(deleted[v - 1] == v);
    }
}

/// After a reclaim, discovery that begins at the pointer still finds HEAD,
/// though every version below the pointer is gone. It fails only where
/// discovery from there fails in a store from which nothing was reclaimed.
pub proof fn law_reclaimed_catalog_is_found<F: Fn(i64) -> Result<bool>>(
    f: F,
    head: i64,
    keep_recent: usize,
    n: nat,
    r: Result<Head>,
)
    requires
        keep_recent > 0,
        cutoff(head, keep_recent) > 0,
        forall|v: i64, a: Result<bool>| #[trigger]
            call_ensures(f, (v,), a) ==> a == Ok::<bool, MeruError>(
                head - keep_recent < v <= head,
            ),
        crate::iceberg::head_discovery::runs(
            f,
            HeadSearch::First { start: (head - keep_recent + 1) as i64 },
            n,
            r,
        ),
    ensures
        crate::iceberg::head_discovery::ends_at(head - keep_recent + 1, head as int, r),
        2 * head <= MAX_PROBE ==> r == Ok::<Head, MeruError>(head),
{
    crate::iceberg::head_discovery::law_discovery_returns_head(
        f,
        (head - keep_recent + 1) as i64,
        head,
        n,
        r,
    );
}

/// Reading the pointer that a reclaim wrote gives the pointer back.
pub proof fn law_pointer_roundtrip(v: i64)
    requires
        v >= 1,
    ensures
        low_water(encode_utf8(crate::text::dec_int(v as int))) == Ok::<i64, ErrorView>(v),
{
    let s = crate::text::dec_int(v as int);
    encode_utf8_valid_utf8(s);
    encode_utf8_decode_utf8(s);
    crate::text::lemma_dec_nat_digits(v as nat);
    crate::text::lemma_parsed_dec_int(v);
    assert(crate::text::is_digit(s[0]));
    assert(crate::text::is_digit(s[s.len() - 1]));
    assert(crate::text::trimmed_start(s) == s);
    assert(crate::text::trimmed_end(s) == s);
}

/// There is something to reclaim exactly where there are more versions than
/// are kept, and then everything but the newest `keep_recent` is.
pub proof fn law_reclaim_begins_past_what_is_kept(head: i64, keep_recent: usize)
    requires
        keep_recent > 0,
    ensures
        cutoff(head, keep_recent) > 0 <==> head > keep_recent,
        head > keep_recent ==> head - cutoff(head, keep_recent) == keep_recent,
{
}

/// The pointer is read as the integer in it, white space around it aside; an
/// integer below 1 is corrupt.
pub proof fn law_pointer_is_read_between_white_space(
    before: Seq<char>,
    v: i64,
    behind: Seq<char>,
)
    requires
        forall|i: int|
            0 <= i < before.len() ==> #[trigger] before[i] == ' ' || before[i] == '\n'
                || before[i] == '\t' || before[i] == '\r',
        forall|i: int|
            0 <= i < behind.len() ==> #[trigger] behind[i] == ' ' || behind[i] == '\n'
                || behind[i] == '\t' || behind[i] == '\r',
    ensures
        v >= 1 ==> low_water(encode_utf8(before + crate::text::dec_int(v as int) + behind))
            == Ok::<i64, ErrorView>(v),
        v < 1 ==> (low_water(
            encode_utf8(before + crate::text::dec_int(v as int) + behind),
        ) matches Err(e) && e is Corruption),
{
    let s = crate::text::dec_int(v as int);
    let text = before + s + behind;
    encode_utf8_valid_utf8(text);
    encode_utf8_decode_utf8(text);
    let m: nat = if v < 0 {
        (-v) as nat
    } else {
        v as nat
    };
    let d = crate::text::dec_nat(m);
    crate::text::lemma_dec_nat_digits(m);
    crate::text::lemma_parsed_dec_int(v);
    assert(crate::text::is_digit(d[0]));
    assert(crate::text::is_digit(d[d.len() - 1]));
    assert(s.last() == d[d.len() - 1]);
    assert(s[0] == '-' || s[0] == d[0]);
    assert forall|i: int| 0 <= i < before.len() implies crate::text::is_whitespace(
        #[trigger] before[i],
    ) by {}
    assert forall|i: int| 0 <= i < behind.len() implies crate::text::is_whitespace(
        #[trigger] behind[i],
    ) by {}
    crate::text::law_trimming_leaves_the_middle(before, s, behind);
}

/// A pointer that is no text is corrupt.
pub proof fn law_pointer_that_is_no_text_is_corrupt(bytes: Seq<u8>)
    requires
        !valid_utf8(bytes),
    ensures
        low_water(bytes) matches Err(e) && e is Corruption,
{
}

} // verus!
