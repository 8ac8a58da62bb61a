//! A bloom filter whose probes for one key stay in one cache line.
//!
//! A key's 64-bit xxhash3 selects a 64-byte bucket by its high half; its low
//! half drives the probes in that bucket. On disk a filter is
//! `[num_probes: u8][num_buckets: u32 LE][buckets]`.

use vstd::prelude::*;
use vstd::string::*;
use xxhash_rust::xxh3::xxh3_64;

use crate::text::{dec_u64, joined};
use crate::types::error::{ErrorView, MeruError, Result};
use crate::wire::push_all;

verus! {

/// What `xxhash_rust::xxh3::xxh3_64` returns for a byte string.
pub uninterp spec fn xxh3(bytes: Seq<u8>) -> u64;

/// `xxhash_rust::xxh3::xxh3_64`: the hash is a function of the bytes alone.
pub assume_specification[ xxh3_64 ](input: &[u8]) -> (r: u64)
    ensures
        r == xxh3(input@),
;

/// The factor that turns one probe hash into the next.
pub const PROBE_FACTOR: u32 = 0x9e37_79b9;

/// The number of buckets as the format counts them, in 32 bits.
pub open spec fn bucket_count(data: Seq<u8>) -> int {
    (data.len() as int / 64) % 0x1_0000_0000
}

/// The bucket that a hash selects: its high half scaled to the bucket count.
pub open spec fn bucket_of(hash: u64, data: Seq<u8>) -> int {
    (hash as int / 0x1_0000_0000) * bucket_count(data) / 0x1_0000_0000
}

/// The hash that drives probe `k`.
pub open spec fn probe_hash(hash: u64, k: nat) -> u32
    decreases k,
{
    if k == 0 {
        (hash as int % 0x1_0000_0000) as u32
    } else {
        probe_hash(hash, (k - 1) as nat).wrapping_mul(PROBE_FACTOR)
    }
}

/// The bit of the bucket that probe `k` looks at: the top nine bits of its
/// hash.
pub open spec fn probe_bit(hash: u64, k: nat) -> int {
    probe_hash(hash, k) as int / 0x80_0000
}

/// Whether bit `bit` of byte `i` is set.
pub open spec fn is_set(data: Seq<u8>, i: int, bit: u8) -> bool {
    data[i] & (1u8 << bit) != 0
}

/// The byte of probe `k`.
pub open spec fn probe_byte(hash: u64, k: nat, data: Seq<u8>) -> int {
    bucket_of(hash, data) * 64 + probe_bit(hash, k) / 8
}

/// The bit in that byte.
pub open spec fn probe_bit_in_byte(hash: u64, k: nat) -> u8 {
    (probe_bit(hash, k) % 8) as u8
}

/// Whether every probe of the hash finds its bit set.
pub open spec fn all_set(data: Seq<u8>, probes: u8, hash: u64) -> bool {
    forall|k: nat| #![trigger probe_hash(hash, k)]
        k < probes ==> is_set(data, probe_byte(hash, k, data), probe_bit_in_byte(hash, k))
}

/// Whether one of the first `n` probes of the hash looks at that bit.
pub open spec fn probed(hash: u64, n: int, data: Seq<u8>, i: int, bit: u8) -> bool {
    exists|k: nat| #![trigger probe_hash(hash, k)]
        k < n && i == probe_byte(hash, k, data) && bit == probe_bit_in_byte(hash, k)
}

/// Whether `after` has the bits of `before` and those of the first `n` probes
/// of the hash, and no others.
pub open spec fn marked(before: Seq<u8>, after: Seq<u8>, hash: u64, n: int) -> bool {
    &&& after.len() == before.len()
    &&& forall|i: int, bit: u8|
        0 <= i < after.len() && bit < 8 ==> (#[trigger] is_set(after, i, bit) <==> is_set(
            before,
            i,
            bit,
        ) || probed(hash, n, before, i, bit))
}

/// The bucket of a hash lies in the table.
proof fn lemma_bucket_in_table(hash: u64, data: Seq<u8>)
    requires
        data.len() >= 64,
    ensures
        0 <= bucket_of(hash, data),
        bucket_of(hash, data) * 64 + 64 <= data.len(),
{
    let h = hash as int / 0x1_0000_0000;
    let n = bucket_count(data);
    assert(0 <= h < 0x1_0000_0000);
    assert(0 <= n <= data.len() as int / 64);
    assert(0 <= h * n <= 0xFFFF_FFFF * n) by (nonlinear_arith)
        requires
            0 <= h < 0x1_0000_0000,
            0 <= n,
    ;
    if n == 0 {
        assert(h * n == 0);
    } else {
        assert(h * n / 0x1_0000_0000 < n);
    }
}

/// Nine bits address a bit of a bucket.
proof fn lemma_probe_bit_range(hash: u64, k: nat)
    ensures
        0 <= probe_bit(hash, k) < 512,
{
}

/// Marking keeps every set bit, so it keeps every key's probes set.
pub proof fn law_marking_keeps_keys(
    before: Seq<u8>,
    after: Seq<u8>,
    marked_hash: u64,
    n: int,
    probes: u8,
    hash: u64,
)
    requires
        before.len() >= 64,
        marked(before, after, marked_hash, n),
        all_set(before, probes, hash),
    ensures
        all_set(after, probes, hash),
{
    lemma_bucket_in_table(hash, before);
    assert forall|k: nat| #![trigger probe_hash(hash, k)] k < probes implies is_set(
        after,
        probe_byte(hash, k, after),
        probe_bit_in_byte(hash, k),
    ) by {
        lemma_probe_bit_range(hash, k);
        let i = probe_byte(hash, k, before);
        let bit = probe_bit_in_byte(hash, k);
        assert(is_set(before, i, bit));
        assert(probe_byte(hash, k, after) == i);
        assert(is_set(after, i, bit));
    }
}

/// A key whose probes were all marked is found: no false negatives.
pub proof fn law_marked_key_is_found(before: Seq<u8>, after: Seq<u8>, hash: u64, probes: u8)
    requires
        before.len() >= 64,
        marked(before, after, hash, probes as int),
    ensures
        all_set(after, probes, hash),
{
    lemma_bucket_in_table(hash, before);
    assert forall|k: nat| #![trigger probe_hash(hash, k)] k < probes implies is_set(
        after,
        probe_byte(hash, k, after),
        probe_bit_in_byte(hash, k),
    ) by {
        lemma_probe_bit_range(hash, k);
        let i = probe_byte(hash, k, before);
        let bit = probe_bit_in_byte(hash, k);
        assert(probed(hash, probes as int, before, i, bit));
        assert(is_set(after, i, bit));
    }
}

/// A filter has no false negatives: whatever keys are added one after
/// another, every one of them is found at the end.
pub proof fn law_no_false_negatives(
    states: Seq<Seq<u8>>,
    hashes: Seq<u64>,
    probes: u8,
    i: int,
)
    requires
        states.len() == hashes.len() + 1,
        states[0].len() >= 64,
        forall|k: int|
            0 <= k < hashes.len() ==> marked(
                states[k],
                states[k + 1],
                #[trigger] hashes[k],
                probes as int,
            ),
        0 <= i < hashes.len(),
    ensures
        all_set(states.last(), probes, hashes[i]),
    decreases hashes.len(),
{
    let last = hashes.len() - 1;
    let hash = hashes[last];
    assert(marked(states[last], states[last + 1], hash, probes as int));
    lemma_size_is_kept(states, hashes, probes, last);
    if i == last {
        law_marked_key_is_found(states[last], states[last + 1], hash, probes);
    } else {
        let states_before = states.drop_last();
        let hashes_before = hashes.drop_last();
        assert forall|k: int| 0 <= k < hashes_before.len() implies marked(
            states_before[k],
            states_before[k + 1],
            #[trigger] hashes_before[k],
            probes as int,
        ) by {
            assert(marked(states[k], states[k + 1], hashes[k], probes as int));
        }
        law_no_false_negatives(states_before, hashes_before, probes, i);
        law_marking_keeps_keys(
            states[last],
            states[last + 1],
            hash,
            probes as int,
            probes,
            hashes[i],
        );
    }
}

/// Adding keys keeps the size of the table.
proof fn lemma_size_is_kept(states: Seq<Seq<u8>>, hashes: Seq<u64>, probes: u8, k: int)
    requires
        states.len() == hashes.len() + 1,
        forall|k: int|
            0 <= k < hashes.len() ==> marked(
                states[k],
                states[k + 1],
                #[trigger] hashes[k],
                probes as int,
            ),
        0 <= k < states.len(),
    ensures
        states[k].len() == states[0].len(),
    decreases k,
{
    if k > 0 {
        lemma_size_is_kept(states, hashes, probes, k - 1);
        let hash = hashes[k - 1];
        assert(marked(states[k - 1], states[k], hash, probes as int));
    }
}

/// A filter without set bits contains no key.
pub proof fn law_empty_filter_contains_nothing(data: Seq<u8>, probes: u8, hash: u64)
    requires
        data.len() >= 64,
        probes >= 1,
        forall|i: int| 0 <= i < data.len() ==> data[i] == 0,
    ensures
        !all_set(data, probes, hash),
{
    lemma_bucket_in_table(hash, data);
    lemma_probe_bit_range(hash, 0);
    let i = probe_byte(hash, 0, data);
    let bit = probe_bit_in_byte(hash, 0);
    assert(data[i] == 0);
    assert(0u8 & (1u8 << bit) == 0) by (bit_vector);
    assert(!is_set(data, i, bit));
    if all_set(data, probes, hash) {
        let h = probe_hash(hash, 0);
        assert(is_set(data, probe_byte(hash, 0, data), probe_bit_in_byte(hash, 0)));
    }
}

/// The number of probes for a budget of bits per key: the budget times the
/// natural logarithm of 2, to the nearest whole number, within 1 and 30.
pub open spec fn probes_for(bits_per_key: u8) -> int {
    let k = (bits_per_key as int * 693_147 + 500_000) / 1_000_000;
    if k < 1 {
        1
    } else if k > 30 {
        30
    } else {
        k
    }
}

/// The number of probes for a budget of bits per key.
pub fn choose_num_probes(bits_per_key: u8) -> (r: u8)
    ensures
        r == probes_for(bits_per_key),
{
    let k: u32 = (bits_per_key as u32 * 693_147 + 500_000) / 1_000_000;
    if k < 1 {
        1
    } else if k > 30 {
        30
    } else {
        k as u8
    }
}

/// The number of buckets of a fresh filter: enough for all bits, at least one.
pub open spec fn buckets_for(num_keys: int, bits_per_key: u8) -> int {
    let bits = num_keys * bits_per_key;
    if bits <= 512 {
        1
    } else {
        (bits + 511) / 512
    }
}

/// A filter as bytes: the probes, the bucket count, the buckets.
pub open spec fn bloom_bytes(data: Seq<u8>, probes: u8) -> Seq<u8> {
    seq![probes] + crate::wire::le_bytes(bucket_count(data)) + data
}

/// The bucket count that the bytes of a filter give.
pub open spec fn stored_buckets(raw: Seq<u8>) -> int {
    raw[1] + 256 * raw[2] + 65536 * raw[3] + 16777216 * raw[4]
}

/// The first thing that is wrong with the bytes of a filter.
pub open spec fn bloom_fault(raw: Seq<u8>) -> Option<ErrorView> {
    if raw.len() < 5 {
        Some(ErrorView::Corruption("bloom filter bytes too short"@))
    } else if raw[0] == 0 {
        Some(ErrorView::Corruption("bloom filter num_probes must be \u{2265} 1"@))
    } else if stored_buckets(raw) == 0 {
        Some(ErrorView::Corruption("bloom filter num_buckets must be \u{2265} 1"@))
    } else if stored_buckets(raw) * 64 > usize::MAX {
        Some(
            ErrorView::Corruption(
                "bloom filter num_buckets "@ + crate::text::dec_int(stored_buckets(raw))
                    + " overflows usize when scaled by 64"@,
            ),
        )
    } else if raw.len() - 5 != stored_buckets(raw) * 64 {
        Some(
            ErrorView::Corruption(
                "bloom data length mismatch: expected "@ + crate::text::dec_int(
                    stored_buckets(raw) * 64,
                ) + ", got "@ + crate::text::dec_int(raw.len() - 5),
            ),
        )
    } else {
        None
    }
}

/// Reading the bytes of a filter gives back its probes and buckets, as long
/// as its bucket count fits the 32 bits of the format.
pub proof fn law_bloom_bytes_roundtrip(data: Seq<u8>, probes: u8)
    requires
        64 <= data.len() <= usize::MAX,
        data.len() % 64 == 0,
        data.len() as int / 64 < 0x1_0000_0000,
        probes >= 1,
    ensures
        bloom_fault(bloom_bytes(data, probes)) is None,
        bloom_bytes(data, probes)[0] == probes,
        bloom_bytes(data, probes).skip(5) == data,
{
    let raw = bloom_bytes(data, probes);
    let n = bucket_count(data);
    assert(n == data.len() as int / 64);
    let le = crate::wire::le_bytes(n);
    assert(raw[1] == le[0] && raw[2] == le[1] && raw[3] == le[2] && raw[4] == le[3]);
    assert(n / 65536 == n / 256 / 256);
    assert(n / 16777216 == n / 256 / 256 / 256);
    assert(n / 16777216 < 256);
    assert(stored_buckets(raw) == n);
    assert(raw.skip(5) =~= data);
}

/// Cache-line-local bloom filter.
#[derive(Debug)]
pub struct FastLocalBloom {
    data: Vec<u8>,
    num_probes: u8,
}

impl FastLocalBloom {
    /// The buckets, 64 bytes each.
    pub closed spec fn data(&self) -> Seq<u8> {
        self.data@
    }

    /// The probes per key.
    pub closed spec fn probes(&self) -> u8 {
        self.num_probes
    }

    /// Whether there is a bucket and a probe.
    pub open spec fn wf(&self) -> bool {
        &&& self.data().len() >= 64
        &&& self.data().len() % 64 == 0
        &&& self.probes() >= 1
    }

    /// An empty filter for `num_keys` keys at `bits_per_key`. The table has
    /// to fit memory.
    pub fn new(num_keys: usize, bits_per_key: u8) -> (r: Self)
        requires
            num_keys * bits_per_key + 511 <= u64::MAX,
            buckets_for(num_keys as int, bits_per_key) * 64 <= usize::MAX,
        ensures
            r.wf(),
            r.probes() == probes_for(bits_per_key),
            r.data().len() == buckets_for(num_keys as int, bits_per_key) * 64,
            forall|i: int| 0 <= i < r.data().len() ==> r.data()[i] == 0,
    {
        let num_probes: u8 = choose_num_probes(bits_per_key);
        assert(0 <= num_keys * bits_per_key) by (nonlinear_arith)
            requires
                0 <= num_keys,
                0 <= bits_per_key,
        ;
        let bits: u64 = (num_keys as u64) * (bits_per_key as u64);
        let num_buckets: usize = if bits <= 512 {
            1
        } else {
            ((bits + 511) / 512) as usize
        };
        FastLocalBloom { data: vec![0u8; num_buckets * 64], num_probes }
    }

    /// Adds a key, given by its bytes without the tag word.
    pub fn add(&mut self, key: &[u8])
        requires
            old(self).wf(),
        ensures
            final(self).wf(),
            final(self).probes() == old(self).probes(),
            marked(
                old(self).data(),
                final(self).data(),
                xxh3(key@),
                old(self).probes() as int,
            ),
    {
        self.add_hash(xxh3_64(key));
    }

    /// Adds the key with this hash.
    pub fn add_hash(&mut self, hash: u64)
        requires
            old(self).wf(),
        ensures
            final(self).wf(),
            final(self).probes() == old(self).probes(),
            marked(old(self).data(), final(self).data(), hash, old(self).probes() as int),
    {
        let num_probes: u8 = self.num_probes;
        add_inner(&mut self.data, hash, num_probes);
    }

    /// Whether the key may have been added: `false` is certain, `true` is
    /// not.
    pub fn may_contain(&self, key: &[u8]) -> (r: bool)
        requires
            self.wf(),
        ensures
            r == all_set(self.data(), self.probes(), xxh3(key@)),
    {
        self.may_contain_hash(xxh3_64(key))
    }

    /// Whether the key with this hash may have been added.
    pub fn may_contain_hash(&self, hash: u64) -> (r: bool)
        requires
            self.wf(),
        ensures
            r == all_set(self.data(), self.probes(), hash),
    {
        probe_scalar(&self.data, hash, self.num_probes)
    }

    /// The filter as bytes.
    pub fn to_bytes(&self) -> (r: Vec<u8>)
        ensures
            r@ == bloom_bytes(self.data(), self.probes()),
    {
        let buckets: u64 = (self.data.len() / 64) as u64 % 0x1_0000_0000;
        let mut out: Vec<u8> = Vec::new();
        out.push(self.num_probes);
        out.push((buckets % 256) as u8);
        out.push((buckets / 256 % 256) as u8);
        out.push((buckets / 65536 % 256) as u8);
        out.push((buckets / 16777216 % 256) as u8);
        push_all(&mut out, self.data.as_slice());
        assert(out@ =~= bloom_bytes(self.data@, self.num_probes));
        out
    }

    /// Reads a filter from its bytes. A filter without probes would pass
    /// every key, one without buckets none could be probed in; both are
    /// refused, and so is a length that the bucket count does not give.
    pub fn from_bytes(raw: &[u8]) -> (r: Result<Self>)
        ensures
            match r {
                Ok(b) => bloom_fault(raw@) is None && b.wf() && b.probes() == raw@[0] && b.data()
                    == raw@.skip(5),
                Err(e) => bloom_fault(raw@) == Some(e@),
            },
    {
        if raw.len() < 5 {
            return Err(MeruError::Corruption("bloom filter bytes too short".to_owned()));
        }
        let num_probes: u8 = raw[0];
        if num_probes == 0 {
            return Err(
                MeruError::Corruption("bloom filter num_probes must be \u{2265} 1".to_owned()),
            );
        }
        let buckets: u64 = raw[1] as u64 + 256 * (raw[2] as u64) + 65536 * (raw[3] as u64)
            + 16777216 * (raw[4] as u64);
        if buckets == 0 {
            return Err(
                MeruError::Corruption("bloom filter num_buckets must be \u{2265} 1".to_owned()),
            );
        }
        let expected: u64 = buckets * 64;
        if expected > usize::MAX as u64 {
            let mut m = joined("bloom filter num_buckets ", dec_u64(buckets).as_str());
            m.append(" overflows usize when scaled by 64");
            return Err(MeruError::Corruption(m));
        }
        let got: u64 = (raw.len() - 5) as u64;
        if got != expected {
            let mut m = joined("bloom data length mismatch: expected ", dec_u64(expected).as_str());
            m.append(", got ");
            m.append(dec_u64(got).as_str());
            return Err(MeruError::Corruption(m));
        }
        let mut data: Vec<u8> = Vec::new();
        push_all(&mut data, vstd::slice::slice_subrange(raw, 5, raw.len()));
        assert(data@ =~= raw@.skip(5));
        Ok(FastLocalBloom { data, num_probes })
    }

    /// The probes per key.
    pub fn num_probes(&self) -> (r: u8)
        ensures
            r == self.probes(),
    {
        self.num_probes
    }

    /// The number of buckets.
    pub fn num_buckets(&self) -> (r: usize)
        ensures
            r == self.data().len() as int / 64,
    {
        self.data.len() / 64
    }
}

/// The first byte of the bucket that a hash selects.
fn bucket_start(data: &Vec<u8>, hash: u64) -> (r: usize)
    requires
        data@.len() >= 64,
    ensures
        r == bucket_of(hash, data@) * 64,
        r + 64 <= data@.len(),
{
    let h1: u64 = hash >> 32;
    let buckets: u64 = (data.len() / 64) as u64 % 0x1_0000_0000;
    proof {
        lemma_bucket_in_table(hash, data@);
        assert(hash >> 32 == hash / 0x1_0000_0000) by (bit_vector);
        assert(0 <= h1 * buckets <= 0xFFFF_FFFF * 0xFFFF_FFFF) by (nonlinear_arith)
            requires
                0 <= h1 <= 0xFFFF_FFFF,
                0 <= buckets <= 0xFFFF_FFFF,
        ;
    }
    let scaled: u64 = h1 * buckets;
    assert(scaled >> 32 == scaled / 0x1_0000_0000) by (bit_vector);
    let bucket: usize = (scaled >> 32) as usize;
    bucket * 64
}

/// The low half of a hash.
fn low_half(hash: u64) -> (r: u32)
    ensures
        r == hash as int % 0x1_0000_0000,
{
    (hash % 0x1_0000_0000) as u32
}

/// The byte of a bucket that a probe hash leads to, and the bit in it.
fn bit_position(h: u32) -> (r: (usize, u8))
    ensures
        r.0 == h as int / 0x80_0000 / 8,
        r.1 == (h as int / 0x80_0000) % 8,
        r.0 < 64,
        r.1 < 8,
{
    assert((h >> 23) & 511 == h / 0x80_0000) by (bit_vector);
    let bitpos: u32 = (h >> 23) & 511;
    assert(bitpos >> 3 == bitpos / 8) by (bit_vector);
    assert(bitpos & 7 == bitpos % 8) by (bit_vector);
    ((bitpos >> 3) as usize, (bitpos & 7) as u8)
}

/// Sets the bits of a hash's probes.
fn add_inner(data: &mut Vec<u8>, hash: u64, num_probes: u8)
    requires
        old(data)@.len() >= 64,
    ensures
        marked(old(data)@, final(data)@, hash, num_probes as int),
{
    let ghost before = data@;
    let start: usize = bucket_start(data, hash);
    let mut h: u32 = low_half(hash);
    let mut k: u8 = 0;
    while k < num_probes
        invariant
            k <= num_probes,
            before.len() >= 64,
            start == bucket_of(hash, before) * 64,
            start + 64 <= before.len(),
            h == probe_hash(hash, k as nat),
            marked(before, data@, hash, k as int),
        decreases num_probes - k,
    {
        let (byte, bit) = bit_position(h);
        let i: usize = start + byte;
        let ghost was = data@;
        let value: u8 = data[i] | (1u8 << bit);
        data[i] = value;
        proof {
            lemma_mark_step(before, was, data@, hash, k as nat, i as int, bit);
        }
        h = h.wrapping_mul(PROBE_FACTOR);
        k = k + 1;
    }
}

/// Setting the bit of probe `k` extends the marking by that probe.
proof fn lemma_mark_step(
    before: Seq<u8>,
    was: Seq<u8>,
    now: Seq<u8>,
    hash: u64,
    k: nat,
    i: int,
    bit: u8,
)
    requires
        marked(before, was, hash, k as int),
        0 <= i < was.len(),
        bit < 8,
        i == probe_byte(hash, k, before),
        bit == probe_bit_in_byte(hash, k),
        now == was.update(i, was[i] | (1u8 << bit)),
    ensures
        marked(before, now, hash, k as int + 1),
{
    assert forall|j: int, b: u8| 0 <= j < now.len() && b < 8 implies (#[trigger] is_set(
        now,
        j,
        b,
    ) <==> is_set(before, j, b) || probed(hash, k as int + 1, before, j, b)) by {
        assert(is_set(was, j, b) <==> is_set(before, j, b) || probed(
            hash,
            k as int,
            before,
            j,
            b,
        ));
        if j == i {
            let x = was[i];
            assert((x | (1u8 << bit)) & (1u8 << b) != 0 <==> (x & (1u8 << b) != 0 || b == bit))
                by (bit_vector)
                requires
                    bit < 8,
                    b < 8,
            ;
        }
        if probed(hash, k as int + 1, before, j, b) && !probed(hash, k as int, before, j, b) {
            let m = choose|m: nat| #![trigger probe_hash(hash, m)]
                m < k + 1 && j == probe_byte(hash, m, before) && b == probe_bit_in_byte(hash, m);
            assert(m == k);
        }
        if probed(hash, k as int, before, j, b) {
            let m = choose|m: nat| #![trigger probe_hash(hash, m)]
                m < k && j == probe_byte(hash, m, before) && b == probe_bit_in_byte(hash, m);
            assert(m < k + 1);
            assert(probed(hash, k as int + 1, before, j, b));
        }
        if j == i && b == bit {
            let h = probe_hash(hash, k);
            assert(probed(hash, k as int + 1, before, j, b));
        }
    }
}

/// Whether all bits of a hash's probes are set.
fn probe_scalar(data: &Vec<u8>, hash: u64, num_probes: u8) -> (r: bool)
    requires
        data@.len() >= 64,
    ensures
        r == all_set(data@, num_probes, hash),
{
    let start: usize = bucket_start(data, hash);
    let mut h: u32 = low_half(hash);
    let mut k: u8 = 0;
    while k < num_probes
        invariant
            k <= num_probes,
            start == bucket_of(hash, data@) * 64,
            start + 64 <= data@.len(),
            h == probe_hash(hash, k as nat),
            forall|m: nat| #![trigger probe_hash(hash, m)]
                m < k ==> is_set(data@, probe_byte(hash, m, data@), probe_bit_in_byte(hash, m)),
        decreases num_probes - k,
    {
        let (byte, bit) = bit_position(h);
        let i: usize = start + byte;
        assert(i == probe_byte(hash, k as nat, data@));
        assert(bit == probe_bit_in_byte(hash, k as nat));
        if data[i] & (1u8 << bit) == 0 {
            assert(!is_set(data@, i as int, bit));
            return false;
        }
        assert(is_set(data@, i as int, bit));
        h = h.wrapping_mul(PROBE_FACTOR);
        k = k + 1;
    }
    true
}

/// The first probe is driven by the low half of the hash, and each further one
/// by the product of the one before with 0x9e3779b9, in 32 bits.
pub proof fn law_probe_hashes(hash: u64, k: nat)
    ensures
        probe_hash(hash, 0) == hash as int % 0x1_0000_0000,
        probe_hash(hash, k + 1) == probe_hash(hash, k) as int * 0x9e37_79b9 % 0x1_0000_0000,
{
}

/// Where probe `k` looks: in the bucket that the high half of the hash takes
/// of all buckets, at the bit that the top nine bits of its own hash give.
pub proof fn law_probe_positions(hash: u64, k: nat, data: Seq<u8>)
    requires
        64 <= data.len(),
        data.len() as int / 64 < 0x1_0000_0000,
    ensures
        bucket_of(hash, data) == (hash as int / 0x1_0000_0000) * (data.len() as int / 64)
            / 0x1_0000_0000,
        0 <= bucket_of(hash, data) < data.len() as int / 64,
        8 * (probe_byte(hash, k, data) - 64 * bucket_of(hash, data)) + probe_bit_in_byte(hash, k)
            == probe_hash(hash, k) as int / 0x80_0000,
        64 * bucket_of(hash, data) <= probe_byte(hash, k, data) < 64 * bucket_of(hash, data) + 64,
        probe_bit_in_byte(hash, k) < 8,
{
    lemma_bucket_in_table(hash, data);
    lemma_probe_bit_range(hash, k);
}

/// A bit is set when shifting it to the bottom leaves an odd number.
pub proof fn law_set_bits(data: Seq<u8>, i: int, bit: u8)
    requires
        bit < 8,
    ensures
        is_set(data, i, bit) <==> (data[i] >> bit) & 1 == 1,
{
    let b = data[i];
    assert(b & (1u8 << bit) != 0 <==> (b >> bit) & 1 == 1) by (bit_vector)
        requires
            bit < 8,
    ;
}

/// Adding a key clears no bit and sets none but those of its probes.
pub proof fn law_marking_sets_the_probes_alone(
    before: Seq<u8>,
    after: Seq<u8>,
    hash: u64,
    n: int,
    i: int,
    bit: u8,
)
    requires
        marked(before, after, hash, n),
        0 <= i < before.len(),
        bit < 8,
    ensures
        after.len() == before.len(),
        is_set(before, i, bit) ==> is_set(after, i, bit),
        is_set(after, i, bit) && !is_set(before, i, bit) ==> exists|k: nat|
            #![trigger probe_hash(hash, k)]
            k < n && 8 * (i - 64 * bucket_of(hash, before)) + bit == probe_hash(hash, k) as int
                / 0x80_0000,
{
    if is_set(after, i, bit) && !is_set(before, i, bit) {
        assert(probed(hash, n, before, i, bit));
        let k = choose|k: nat| #![trigger probe_hash(hash, k)]
            k < n && i == probe_byte(hash, k, before) && bit == probe_bit_in_byte(hash, k);
        lemma_probe_bit_range(hash, k);
    }
}

/// A key is found exactly when every bit that its probes look at is set.
pub proof fn law_key_is_found_by_its_probes(data: Seq<u8>, probes: u8, hash: u64)
    requires
        64 <= data.len(),
    ensures
        all_set(data, probes, hash) <==> forall|k: nat, i: int, bit: u8|
            k < probes && bit < 8 && 0 <= i - 64 * bucket_of(hash, data) < 64 && 8 * (i - 64
                * bucket_of(hash, data)) + bit == (#[trigger] probe_hash(hash, k)) as int
                / 0x80_0000 ==> #[trigger] is_set(data, i, bit),
{
    if all_set(data, probes, hash) {
        assert forall|k: nat, i: int, bit: u8|
            k < probes && bit < 8 && 0 <= i - 64 * bucket_of(hash, data) < 64 && 8 * (i - 64
                * bucket_of(hash, data)) + bit == (#[trigger] probe_hash(hash, k)) as int
                / 0x80_0000 implies #[trigger] is_set(data, i, bit) by {
            lemma_probe_bit_range(hash, k);
            assert(i == probe_byte(hash, k, data));
            assert(bit == probe_bit_in_byte(hash, k));
        }
    }
    if forall|k: nat, i: int, bit: u8|
        k < probes && bit < 8 && 0 <= i - 64 * bucket_of(hash, data) < 64 && 8 * (i - 64
            * bucket_of(hash, data)) + bit == (#[trigger] probe_hash(hash, k)) as int / 0x80_0000
            ==> #[trigger] is_set(data, i, bit) {
        assert forall|k: nat| #![trigger probe_hash(hash, k)] k < probes implies is_set(
            data,
            probe_byte(hash, k, data),
            probe_bit_in_byte(hash, k),
        ) by {
            lemma_probe_bit_range(hash, k);
        }
    }
}

/// The number of probes is the budget times the logarithm of 2, rounded, and
/// at least 1 and at most 30; a larger budget has no fewer.
pub proof fn law_probes_round_the_budget(bits_per_key: u8, larger: u8)
    requires
        bits_per_key <= larger,
    ensures
        1 <= probes_for(bits_per_key) <= 30,
        probes_for(bits_per_key) <= probes_for(larger),
        probes_for(bits_per_key) > 1 ==> probes_for(bits_per_key) * 1_000_000 <= bits_per_key
            * 693_147 + 500_000,
        probes_for(bits_per_key) < 30 ==> probes_for(bits_per_key) * 1_000_000 > bits_per_key
            * 693_147 - 500_000,
{
}

/// A fresh filter has the fewest buckets of 512 bits that hold the budget of
/// all keys, and at least one.
pub proof fn law_buckets_hold_the_budget(num_keys: int, bits_per_key: u8)
    requires
        num_keys >= 0,
    ensures
        buckets_for(num_keys, bits_per_key) >= 1,
        buckets_for(num_keys, bits_per_key) * 512 >= num_keys * bits_per_key,
        buckets_for(num_keys, bits_per_key) > 1 ==> (buckets_for(num_keys, bits_per_key) - 1) * 512
            < num_keys * bits_per_key,
{
}

/// The bytes of a filter are its probes, its number of buckets in four
/// little-endian bytes, and its buckets.
pub proof fn law_bloom_bytes_layout(data: Seq<u8>, probes: u8)
    requires
        data.len() as int / 64 < 0x1_0000_0000,
    ensures
        bloom_bytes(data, probes).len() == 5 + data.len(),
        bloom_bytes(data, probes)[0] == probes,
        bloom_bytes(data, probes)[1] + 0x100 * bloom_bytes(data, probes)[2] + 0x1_0000
            * bloom_bytes(data, probes)[3] + 0x100_0000 * bloom_bytes(data, probes)[4]
            == data.len() as int / 64,
        bloom_bytes(data, probes).skip(5) == data,
{
    crate::wire::law_le_bytes_denote_their_number(data.len() as int / 64);
    let le = crate::wire::le_bytes(bucket_count(data));
    let raw = bloom_bytes(data, probes);
    assert(raw[1] == le[0] && raw[2] == le[1] && raw[3] == le[2] && raw[4] == le[3]);
    assert(raw.skip(5) =~= data);
}

/// Bytes are read as a filter exactly when there is a probe and a bucket and
/// the buckets that are announced are there, no more and no fewer; any others
/// are corrupt.
pub proof fn law_only_whole_filters_are_read(raw: Seq<u8>)
    requires
        raw.len() <= usize::MAX,
    ensures
        bloom_fault(raw) is None <==> raw.len() >= 5 && raw[0] >= 1 && raw.len() > 5 && raw.len() - 5
            == 64 * (raw[1] + 0x100 * raw[2] + 0x1_0000 * raw[3] + 0x100_0000 * raw[4]),
        bloom_fault(raw) matches Some(e) ==> e is Corruption,
{
}

/// Buckets have 64 bytes and are counted in 32 bits.
pub proof fn law_buckets_are_counted_in_32_bits(data: Seq<u8>)
    ensures
        bucket_count(data) == data.len() as int / 64 % 0x1_0000_0000,
        data.len() < 64 * 0x1_0000_0000 ==> 64 * bucket_count(data) <= data.len() < 64 * (
        bucket_count(data) + 1),
{
}

} // verus!
