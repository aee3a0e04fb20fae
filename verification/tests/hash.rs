use malachite_bigint::BigInt;
use pycodegen::ast::Int;
use pycodegen::hash::{
    fix_sentinel, hash_bigint, hash_digest, hash_float, hash_object_id, hash_object_id_raw,
    hash_pointer, hash_usize, keyed_hash, lcg_urandom, mod_int, HashSecret, PyHash, ALGO, BITS,
    HASH_BITS, IMAG, INF, MODULUS, MULTIPLIER, NAN, SEED_BITS, SENTINEL,
};
use pycodegen::integer::ruff_int_to_bigint;
use siphasher::sip::SipHasher24;
use std::hash::{Hash, Hasher};

fn integer(literal: &str) -> BigInt {
    match ruff_int_to_bigint(&Int::Big(literal.to_string())) {
        Ok(value) => value,
        Err(_) => panic!("no integer"),
    }
}

#[test]
fn constants_of_the_hashes() {
    assert_eq!(SENTINEL, -1);
    assert_eq!(MULTIPLIER, 0xf4243);
    assert_eq!(MODULUS, (1u64 << BITS) - 1);
    assert_eq!(INF, 314_159);
    assert_eq!(NAN, 0);
    assert_eq!(IMAG, MULTIPLIER);
    assert_eq!(ALGO, "siphash24");
    assert_eq!(HASH_BITS, 64);
    assert_eq!(SEED_BITS, 128);
}

#[test]
fn the_sentinel_is_no_hash() {
    assert_eq!(fix_sentinel(-1), -2);
    assert_eq!(fix_sentinel(-2), -2);
    assert_eq!(fix_sentinel(7), 7);
}

#[test]
fn remainders_have_the_sign_of_the_number() {
    assert_eq!(mod_int(5), 5);
    assert_eq!(mod_int(-5), -5);
    assert_eq!(mod_int(1 << 61), 1);
    assert_eq!(mod_int(-(1 << 61)), -1);
    assert_eq!(mod_int(i64::MIN), -4);
}

#[test]
fn integers_hash_to_their_remainder() {
    assert_eq!(hash_bigint(&BigInt::from(0)), 0);
    assert_eq!(hash_bigint(&BigInt::from(12345)), 12345);
    assert_eq!(hash_bigint(&BigInt::from(-12345)), -12345);
    assert_eq!(hash_bigint(&BigInt::from(-1)), -2);
    assert_eq!(hash_bigint(&integer("2305843009213693951")), 0);
    assert_eq!(hash_bigint(&integer("2305843009213693952")), 1);
    assert_eq!(hash_bigint(&BigInt::from(-(1i64 << 61))), -2);
    assert_eq!(hash_bigint(&integer("1000000000000000000000000000000")), 465258685558744706);
    let negative = -integer("1000000000000000000000000000000");
    assert_eq!(hash_bigint(&negative), -465258685558744706);
}

#[test]
fn words_hash_like_integers() {
    for n in [0usize, 1, 1 << 40, (1 << 61) - 1, 1 << 61, i64::MAX as usize] {
        assert_eq!(hash_usize(n), hash_bigint(&BigInt::from(n as u64)));
    }
    assert_eq!(hash_usize(usize::MAX), -2);
    assert_eq!(hash_usize(1 << 63), -4);
}

#[test]
fn floats_hash_to_their_value() {
    let cases: [(f64, PyHash); 8] = [
        (0.5, 1152921504606846976),
        (1.5, 1152921504606846977),
        (-1.0, -2),
        (3.0, 3),
        (1e308, 156575653125701),
        (5e-324, 16777216),
        (2305843009213693952.0, 1),
        (-0.1, -230584300921369408),
    ];
    for (x, h) in cases {
        assert_eq!(hash_float(x.to_bits()), Some(h), "{x}");
    }
    assert_eq!(hash_float(0.0f64.to_bits()), Some(0));
    assert_eq!(hash_float((-0.0f64).to_bits()), Some(0));
    assert_eq!(hash_float(f64::INFINITY.to_bits()), Some(INF));
    assert_eq!(hash_float(f64::NEG_INFINITY.to_bits()), Some(-INF));
    assert_eq!(hash_float(f64::NAN.to_bits()), None);
}

#[test]
fn integral_floats_hash_like_integers() {
    for n in [1i64, 2, 3, 1000, -7, 1 << 53, -(1 << 60)] {
        assert_eq!(hash_float((n as f64).to_bits()), Some(hash_bigint(&BigInt::from(n))));
    }
    let power = integer("0x10000000000000000000000000");
    assert_eq!(hash_float(2f64.powi(100).to_bits()), Some(hash_bigint(&power)));
}

#[test]
fn pointers_hash_to_their_bits() {
    assert_eq!(hash_pointer(0x10), 0x11);
    assert_eq!(hash_pointer(0xffff_0000_1234_5678), -17591863650433);
    assert_eq!(hash_object_id_raw(5), 5);
    assert_eq!(hash_object_id_raw(usize::MAX), -1);
    assert_eq!(hash_object_id(usize::MAX), -2);
    assert_eq!(hash_object_id(5), 5);
}

#[test]
fn the_generator_gives_bytes() {
    let mut buf = [0u8; 8];
    lcg_urandom(42, &mut buf);
    assert_eq!(buf, [175, 144, 205, 104, 211, 79, 80, 220]);
    let mut short = [9u8; 4];
    lcg_urandom(42, &mut short);
    assert_eq!(short, buf[..4]);
    lcg_urandom(0, &mut short);
    assert_eq!(short, [38, 39, 246, 133]);
}

#[test]
fn byte_strings_hash_under_a_key() {
    let secret = HashSecret::new(42);
    assert_eq!(secret.hash_bytes(b""), 0);
    assert_eq!(secret.hash_bytes(b"hello"), -1953019190065793519);
    assert_eq!(secret.hash_str("hello"), -1953019190065793519);
    assert_eq!(secret.hash_str(""), 0);
    assert_ne!(HashSecret::new(43).hash_bytes(b"hello"), secret.hash_bytes(b"hello"));
}

#[test]
fn values_hash_by_the_bytes_they_feed() {
    let secret = HashSecret::new(42);
    assert_eq!(secret.hash_value::<[u8]>(b"hello"), secret.hash_bytes(b"hello"));
    let word: u64 = 0x0102;
    assert_eq!(secret.hash_value(&word), secret.hash_message(&[2, 1, 0, 0, 0, 0, 0, 0]));
    assert_ne!(secret.hash_value(&1u64), secret.hash_value(&2u64));
}

#[test]
fn sequences_hash_item_by_item() {
    let secret = HashSecret::new(42);
    let items: [i64; 2] = [1, -2];
    let all: Result<PyHash, &str> = secret.hash_iter(&items, |x: &i64| Ok(*x));
    assert_eq!(all, Ok(1660519682291234673));
    assert_eq!(secret.hash_hashes(&items), 1660519682291234673);
    let none: Result<PyHash, &str> = secret.hash_iter(&[], |x: &i64| Ok(*x));
    assert_eq!(none, Ok(-1975814998625068729));
    let failed: Result<PyHash, i64> = secret.hash_iter(&items, |x: &i64| {
        if *x < 0 {
            Err(*x)
        } else {
            Ok(*x)
        }
    });
    assert_eq!(failed, Err(-2));
}

#[test]
fn digests_are_reduced() {
    assert_eq!(hash_digest(7), 7);
    assert_eq!(hash_digest(u64::MAX), -2);
    assert_eq!(hash_digest(MODULUS), 0);
    assert_eq!(keyed_hash(7, b"hello"), 0x34106b1f1b45deaf);
}

fn streamed<T: Hash + ?Sized>(seed: u32, items: &[&T]) -> PyHash {
    let mut key = [0u8; 16];
    lcg_urandom(seed, &mut key);
    let mut first = [0u8; 8];
    let mut second = [0u8; 8];
    first.copy_from_slice(&key[..8]);
    second.copy_from_slice(&key[8..]);
    let mut hasher =
        SipHasher24::new_with_keys(u64::from_le_bytes(first), u64::from_le_bytes(second));
    for item in items {
        item.hash(&mut hasher);
    }
    hash_digest(hasher.finish())
}

#[test]
fn values_hash_as_when_they_are_streamed() {
    for seed in [0u32, 1, 42, u32::MAX] {
        let secret = HashSecret::new(seed);
        let mixed = (1u8, "ab", 3u64, vec![4u16, 5], Some(-6i32));
        assert_eq!(secret.hash_value(&mixed), streamed(seed, &[&mixed]));
        assert_eq!(secret.hash_bytes(b"hello"), streamed::<[u8]>(seed, &[b"hello"]));
        assert_eq!(secret.hash_hashes(&[1, -2, 3]), streamed(seed, &[&1i64, &-2, &3]));
        assert_eq!(secret.hash_hashes(&[]), streamed::<i64>(seed, &[]));
    }
}

#[test]
fn keyed_digests_are_not_reduced() {
    for buf in [b"".as_slice(), b"hello", &[7; 40]] {
        let mut hasher = SipHasher24::new_with_keys(9, 0);
        buf.hash(&mut hasher);
        assert_eq!(keyed_hash(9, buf), hasher.finish());
    }
    assert_ne!(keyed_hash(9, b""), 0);
    for seed in [0u32, 42] {
        let secret = HashSecret::new(seed);
        assert_eq!(secret.hash_bytes(b""), 0);
        for value in [b"a".as_slice(), b"hello", &[7; 40]] {
            assert_eq!(secret.hash_bytes(value), secret.hash_value(value));
        }
    }
}
