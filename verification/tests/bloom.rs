use merutable::parquet::bloom::{choose_num_probes, FastLocalBloom};
use merutable::types::error::MeruError;

#[test]
fn no_false_negatives() {
    let n = 10_000usize;
    let mut bloom = FastLocalBloom::new(n, 10);
    let keys: Vec<Vec<u8>> = (0..n as u64).map(|i| i.to_le_bytes().to_vec()).collect();
    for k in &keys {
        bloom.add(k);
    }
    for k in &keys {
        assert!(bloom.may_contain(k), "false negative for key {:?}", k);
    }
}

#[test]
fn fpr_within_bounds() {
    let n = 10_000usize;
    let mut bloom = FastLocalBloom::new(n, 10);
    for i in 0..n as u64 {
        bloom.add(&i.to_le_bytes());
    }

    let total = 100_000u64;
    let mut fp = 0u64;
    for i in 0..total {
        let k = (i + 1_000_000u64).to_le_bytes();
        if bloom.may_contain(&k) {
            fp += 1;
        }
    }
    let fpr = fp as f64 / total as f64;
    assert!(fpr < 0.015, "FPR {fpr:.4} exceeds 1.5% for 10 bits/key");
}

#[test]
fn serialize_deserialize_roundtrip() {
    let mut bloom = FastLocalBloom::new(1000, 10);
    bloom.add(b"hello");
    bloom.add(b"world");
    let bytes = bloom.to_bytes();
    let decoded = FastLocalBloom::from_bytes(&bytes).unwrap();
    assert!(decoded.may_contain(b"hello"));
    assert!(decoded.may_contain(b"world"));
    assert_eq!(decoded.num_probes(), bloom.num_probes());
}

#[test]
fn empty_bloom_contains_nothing() {
    let bloom = FastLocalBloom::new(1000, 10);
    let mut fp = 0u64;
    for i in 0..10_000u64 {
        if bloom.may_contain(&i.to_le_bytes()) {
            fp += 1;
        }
    }
    assert_eq!(fp, 0, "empty bloom should have no false positives");
}

#[test]
fn choose_probes_reasonable() {
    assert_eq!(choose_num_probes(10), 7);
    assert_eq!(choose_num_probes(8), 6);
    assert_eq!(choose_num_probes(12), 8);
}

#[test]
fn choose_probes_is_the_rounded_product_for_every_width() {
    for bits in 0..=u8::MAX {
        let k = (bits as f64 * 0.6931471805599453).round() as u8;
        assert_eq!(choose_num_probes(bits), k.clamp(1, 30), "bits {bits}");
    }
}

#[test]
fn from_bytes_rejects_zero_buckets() {
    let raw = [7u8, 0, 0, 0, 0]; // num_probes=7, num_buckets=0
    let result = FastLocalBloom::from_bytes(&raw);
    assert!(matches!(result, Err(MeruError::Corruption(_))));
}

#[test]
fn from_bytes_rejects_zero_probes() {
    // num_probes=0, num_buckets=1, 64 bytes of zeros.
    let mut raw = vec![0u8, 1, 0, 0, 0];
    raw.extend(std::iter::repeat(0u8).take(64));
    let result = FastLocalBloom::from_bytes(&raw);
    assert!(matches!(result, Err(MeruError::Corruption(_))));
}

#[test]
fn from_bytes_rejects_length_mismatch() {
    // The header says two buckets (128 bytes) but 64 bytes follow.
    let mut raw = vec![7u8, 2, 0, 0, 0];
    raw.extend(std::iter::repeat(0u8).take(64));
    let result = FastLocalBloom::from_bytes(&raw);
    assert!(matches!(result, Err(MeruError::Corruption(_))));
}

#[test]
fn round_trip_minimum_size_filter() {
    let mut bloom = FastLocalBloom::new(1, 10);
    bloom.add(b"present");
    let bytes = bloom.to_bytes();
    let decoded = FastLocalBloom::from_bytes(&bytes).unwrap();
    assert!(decoded.may_contain(b"present"));
    assert_eq!(decoded.num_buckets(), bloom.num_buckets());
    assert!(decoded.num_buckets() >= 1);
}

#[test]
fn key_is_found_by_its_hash() {
    let mut bloom = FastLocalBloom::new(100, 10);
    bloom.add(b"key");
    let hash = xxhash_rust::xxh3::xxh3_64(b"key");
    assert!(bloom.may_contain_hash(hash));
    let mut by_hash = FastLocalBloom::new(100, 10);
    by_hash.add_hash(hash);
    assert_eq!(by_hash.to_bytes(), bloom.to_bytes());
    assert!(by_hash.may_contain(b"key"));
    assert!(!by_hash.may_contain(b"other"));
}

#[test]
fn bloom_bytes_have_a_header_and_whole_buckets() {
    // 1000 keys at 10 bits need 10000 bits, 20 buckets of 512 bits.
    let bloom = FastLocalBloom::new(1000, 10);
    assert_eq!(bloom.num_buckets(), 20);
    assert_eq!(bloom.num_probes(), 7);
    let bytes = bloom.to_bytes();
    assert_eq!(bytes.len(), 5 + 20 * 64);
    assert_eq!(&bytes[..5], &[7, 20, 0, 0, 0]);
    assert!(matches!(FastLocalBloom::from_bytes(&bytes[..4]), Err(MeruError::Corruption(_))));
}
