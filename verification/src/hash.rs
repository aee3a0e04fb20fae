//! The numeric and keyed hashes of Python values.
use vstd::prelude::*;

use crate::bigint::{bigint_rem_u64, bigint_to_i64};
use malachite_bigint::BigInt;
use siphasher::sip::SipHasher24;
use std::hash::{Hash, Hasher};
use crate::modular::{lemma_scaled_shift, rotate, scaled};
use vstd::arithmetic::power2::{lemma2_to64, lemma2_to64_rest, lemma_pow2_adds, pow2};

verus! {

/// A hash of a Python value.
pub type PyHash = i64;

/// A hash while it is being computed.
pub type PyUHash = u64;

/// A hash value that stands for a missing one, such as "not yet computed" in a cache of hashes.
pub const SENTINEL: PyHash = -1;

/// Prime multiplier used in string and various other hashes.
pub const MULTIPLIER: PyHash = 1_000_003;

/// Numeric hashes are based on reduction modulo the prime `2**BITS - 1`.
pub const BITS: usize = 61;

/// The prime by which numeric hashes are reduced.
pub const MODULUS: PyUHash = 0x1fff_ffff_ffff_ffff;

/// The hash of positive infinity.
pub const INF: PyHash = 314_159;

/// The hash that stands for a NaN.
pub const NAN: PyHash = 0;

/// The factor of the imaginary part in the hash of a complex number.
pub const IMAG: PyHash = MULTIPLIER;

/// The name of the keyed hash.
pub const ALGO: &'static str = "siphash24";

/// The width of a hash.
pub const HASH_BITS: usize = 64;

/// The keyed hash takes a seed of two 64-bit words.
pub const SEED_BITS: usize = 128;

/// Remainder by [`MODULUS`] with the sign of `v`.
pub open spec fn reduced(v: int) -> int {
    crate::bigint::truncated_rem(v, MODULUS as int)
}

/// `h`, or -2 where `h` is the sentinel.
pub open spec fn settled(h: int) -> int {
    if h == SENTINEL {
        -2
    } else {
        h
    }
}

/// Moves a hash off the sentinel.
pub fn fix_sentinel(x: PyHash) -> (r: PyHash)
    ensures
        r == settled(x as int),
        r != SENTINEL,
{
    if x == SENTINEL {
        -2
    } else {
        x
    }
}

/// The remainder of a word, with its sign.
pub fn mod_int(value: i64) -> (r: PyHash)
    ensures
        r == reduced(value as int),
{
    value % (MODULUS as i64)
}

/// Reads a word in two's complement.
pub open spec fn as_signed(v: int) -> int {
    if v < 0x8000_0000_0000_0000 {
        v
    } else {
        v - 0x1_0000_0000_0000_0000
    }
}

/// The hash of an address, whose low bits are mixed with higher ones.
pub fn hash_pointer(value: usize) -> (r: PyHash)
    ensures
        r == as_signed(((value >> 4) | value) as int),
{
    let hash: usize = (value >> 4) | value;
    signed_word(hash as u64)
}

/// The signed number whose two's complement is `w`.
fn signed_word(w: u64) -> (r: i64)
    ensures
        r == as_signed(w as int),
{
    assert(w < 0x8000_0000_0000_0000 ==> (w as i64) == w) by (bit_vector);
    assert(w >= 0x8000_0000_0000_0000 ==> (w as i64) == w - 0x1_0000_0000_0000_0000) by (bit_vector);
    w as i64
}

/// The hash of a machine word, read as a signed one.
pub fn hash_usize(data: usize) -> (r: PyHash)
    ensures
        r == settled(reduced(as_signed(data as int))),
        r != SENTINEL,
{
    fix_sentinel(mod_int(signed_word(data as u64)))
}

/// The number of an object, read as a signed word.
pub fn hash_object_id_raw(p: usize) -> (r: PyHash)
    ensures
        r == as_signed(p as int),
{
    signed_word(p as u64)
}

/// The hash of an object by its number.
pub fn hash_object_id(p: usize) -> (r: PyHash)
    ensures
        r == settled(as_signed(p as int)),
        r != SENTINEL,
{
    fix_sentinel(hash_object_id_raw(p))
}

/// The hash of an integer of any size: its remainder by [`MODULUS`], with the integer's sign.
pub fn hash_bigint(value: &BigInt) -> (r: PyHash)
    ensures
        r == settled(reduced(crate::bigint::bigint_value(*value))),
        r != SENTINEL,
{
    let ret: PyHash = match bigint_to_i64(value) {
        Some(i) => mod_int(i),
        None => {
            let rest = bigint_rem_u64(value, MODULUS);
            match bigint_to_i64(&rest) {
                Some(i) => i,
                None => {
                    proof {
                        assert(false);
                    }
                    0
                },
            }
        },
    };
    fix_sentinel(ret)
}

/// The state of the linear congruential generator after `n` steps from `x`.
pub open spec fn lcg_state(x: u32, n: nat) -> u32
    decreases n,
{
    if n == 0 {
        x
    } else {
        ((lcg_state(x, (n - 1) as nat) * 214013 + 2531011) % 0x1_0000_0000) as u32
    }
}

/// The `n`-th byte that the generator gives, counted from 1: bits 16 to 23 of its state.
pub open spec fn lcg_byte(x: u32, n: nat) -> u8 {
    ((lcg_state(x, n) / 0x1_0000) % 0x100) as u8
}

/// Fills a buffer with the bytes of a linear congruential generator started at `x`.
#[verifier::spinoff_prover]
pub fn lcg_urandom(x: u32, buf: &mut [u8])
    ensures
        final(buf)@ == Seq::new(old(buf)@.len(), |i: int| lcg_byte(x, (i + 1) as nat)),
{
    let mut state: u32 = x;
    let n: usize = buf.len();
    let mut i: usize = 0;
    while i < n
        invariant
            i <= n,
            n == buf@.len(),
            n == old(buf)@.len(),
            state == lcg_state(x, i as nat),
            forall|j: int| 0 <= j < i ==> buf@[j] == lcg_byte(x, (j + 1) as nat),
        decreases n - i,
    {
        let ghost before = state;
        state = state.wrapping_mul(214013);
        state = state.wrapping_add(2531011);
        assert(state == lcg_state(x, (i + 1) as nat));
        assert(((state >> 16) & 0xff) == (state / 0x1_0000) % 0x100) by (bit_vector);
        buf[i] = ((state >> 16) & 0xff) as u8;
        i += 1;
    }
    assert(buf@ =~= Seq::new(old(buf)@.len(), |i: int| lcg_byte(x, (i + 1) as nat)));
}

/// The number that the bytes write in base 256, least significant byte first.
pub open spec fn le_value(bytes: Seq<u8>) -> int
    decreases bytes.len(),
{
    if bytes.len() == 0 {
        0
    } else {
        bytes[0] + 256 * le_value(bytes.drop_first())
    }
}

/// Reads eight bytes of `bytes`, from `at` on, as a number, least significant byte first.
fn read_le(bytes: &[u8], at: usize) -> (r: u64)
    requires
        at + 8 <= bytes@.len(),
    ensures
        r == le_value(bytes@.subrange(at as int, at + 8)),
{
    let b0: u64 = bytes[at] as u64;
    let b1: u64 = bytes[at + 1] as u64;
    let b2: u64 = bytes[at + 2] as u64;
    let b3: u64 = bytes[at + 3] as u64;
    let b4: u64 = bytes[at + 4] as u64;
    let b5: u64 = bytes[at + 5] as u64;
    let b6: u64 = bytes[at + 6] as u64;
    let b7: u64 = bytes[at + 7] as u64;
    proof {
        let s = bytes@.subrange(at as int, at + 8);
        reveal_with_fuel(le_value, 9);
        assert(s.drop_first()[0] == s[1]);
        assert(s.drop_first().drop_first()[0] == s[2]);
        assert(s.drop_first().drop_first().drop_first()[0] == s[3]);
    }
    b0 + 256 * (b1 + 256 * (b2 + 256 * (b3 + 256 * (b4 + 256 * (b5 + 256 * (b6 + 256 * b7))))))
}

/// The SipHash-2-4 digest of a message under a key of two words.
pub uninterp spec fn sip24_digest(k0: u64, k1: u64, message: Seq<u8>) -> u64;

/// `SipHasher24::new_with_keys` and its `hash` method: the SipHash-2-4 digest of the bytes.
#[verifier::external_body]
fn sip24(k0: u64, k1: u64, message: &[u8]) -> (r: u64)
    ensures
        r == sip24_digest(k0, k1, message@),
{
    SipHasher24::new_with_keys(k0, k1).hash(message)
}

/// A hasher that keeps the bytes it is fed.
struct Feed {
    bytes: Vec<u8>,
}

impl Feed {
    /// The bytes that were fed so far.
    pub closed spec fn fed(&self) -> Seq<u8> {
        self.bytes@
    }
}

impl Hasher for Feed {
    /// No digest is made of the bytes: the result is 0, whatever they are.
    fn finish(&self) -> (r: u64)
        ensures
            r == 0,
    {
        0
    }

    /// Appends the bytes to those that there are.
    fn write(&mut self, bytes: &[u8])
        ensures
            final(self).fed() == old(self).fed() + bytes@,
    {
        self.bytes.extend_from_slice(bytes);
        assert(self.bytes@ =~= old(self).bytes@ + bytes@);
    }
}

/// `Hash::hash`: the bytes that a value feeds to a hasher. Nothing is stated of them: the value's
/// type decides, and std promises the same bytes neither on two machines nor in two releases.
#[verifier::external_body]
fn fed_bytes<T: Hash + ?Sized>(data: &T) -> (r: Vec<u8>) {
    let mut feed = Feed { bytes: Vec::new() };
    data.hash(&mut feed);
    feed.bytes
}

/// Whether a message is what a value feeds to a hasher.
pub closed spec fn feeds<T: Hash + ?Sized>(data: &T, message: Seq<u8>) -> bool {
    exists|v: Vec<u8>| #[trigger] call_ensures(fed_bytes::<T>, (data,), v) && v@ == message
}

/// The message that a value feeds to a hasher.
fn message_of<T: Hash + ?Sized>(data: &T) -> (r: Vec<u8>)
    ensures
        feeds(data, r@),
{
    let f = fed_bytes::<T>;
    f(data)
}

/// Whether each hash of a list feeds the message at its place to a hasher.
pub open spec fn all_feed(hashes: Seq<PyHash>, messages: Seq<Seq<u8>>) -> bool {
    &&& messages.len() == hashes.len()
    &&& forall|i: int| 0 <= i < hashes.len() ==> #[trigger] feeds(&hashes[i], messages[i])
}

/// Whether a function gives these hashes of these items.
pub open spec fn hashed_by<T, E, F: Fn(&T) -> Result<PyHash, E>>(
    hash_func: F,
    items: Seq<T>,
    hashes: Seq<PyHash>,
) -> bool {
    &&& hashes.len() == items.len()
    &&& forall|i: int|
        0 <= i < items.len() ==> call_ensures(hash_func, (#[trigger] &items[i],), Ok(hashes[i]))
}

/// The key of the string hashes.
pub struct HashSecret {
    k0: u64,
    k1: u64,
}

/// The hash that a digest gives.
pub open spec fn digest_hash(digest: u64) -> int {
    settled(reduced(as_signed(digest as int)))
}

/// The hash that a digest of the keyed hasher gives.
pub fn hash_digest(digest: u64) -> (r: PyHash)
    ensures
        r == digest_hash(digest),
        r != SENTINEL,
{
    fix_sentinel(mod_int(signed_word(digest)))
}

impl HashSecret {
    /// The first word of the key.
    pub closed spec fn first(self) -> u64 {
        self.k0
    }

    /// The second word of the key.
    pub closed spec fn second(self) -> u64 {
        self.k1
    }

    /// What this key's digest of a message hashes to.
    pub open spec fn message_hash(self, message: Seq<u8>) -> int {
        digest_hash(sip24_digest(self.first(), self.second(), message))
    }

    /// The key that a seed gives: the first sixteen bytes of the generator.
    pub fn new(seed: u32) -> (r: Self)
        ensures
            r.first() == le_value(Seq::new(8, |i: int| lcg_byte(seed, (i + 1) as nat))),
            r.second() == le_value(Seq::new(8, |i: int| lcg_byte(seed, (i + 9) as nat))),
    {
        let mut buf = [0u8;16];
        lcg_urandom(seed, &mut buf);
        assert(buf@.subrange(0, 8) =~= Seq::new(8, |i: int| lcg_byte(seed, (i + 1) as nat)));
        assert(buf@.subrange(8, 16) =~= Seq::new(8, |i: int| lcg_byte(seed, (i + 9) as nat)));
        let k0: u64 = read_le(&buf, 0);
        let k1: u64 = read_le(&buf, 8);
        HashSecret { k0, k1 }
    }

    /// Whether `r` is what this key makes of the message that a value feeds.
    pub open spec fn hashed<T: Hash + ?Sized>(self, data: &T, r: int) -> bool {
        exists|message: Seq<u8>| #[trigger] feeds(data, message) && r == self.message_hash(message)
    }

    /// Whether `r` is what this key makes of the messages that some hashes feed one after another.
    pub open spec fn all_hashed(self, hashes: Seq<PyHash>, r: int) -> bool {
        exists|messages: Seq<Seq<u8>>| #[trigger]
            all_feed(hashes, messages) && r == self.message_hash(messages.flatten())
    }

    /// Whether `r` is the hash of a byte string: 0 for the empty one, else that of a value.
    pub open spec fn bytes_hashed(self, value: &[u8], r: int) -> bool {
        if value@.len() == 0 {
            r == 0
        } else {
            self.hashed(value, r)
        }
    }

    /// The hash of a value: that of the bytes its `Hash` impl feeds.
    pub fn hash_value<T: Hash + ?Sized>(&self, data: &T) -> (r: PyHash)
        ensures
            self.hashed(data, r as int),
            r != SENTINEL,
    {
        let message = message_of(data);
        self.hash_message(message.as_slice())
    }

    /// The hash of a message that was fed to the keyed hasher.
    pub fn hash_message(&self, message: &[u8]) -> (r: PyHash)
        ensures
            r == self.message_hash(message@),
            r != SENTINEL,
    {
        hash_digest(sip24(self.k0, self.k1, message))
    }

    /// The hash of a list of hashes, which are fed one after another.
    pub fn hash_hashes(&self, hashes: &[PyHash]) -> (r: PyHash)
        ensures
            self.all_hashed(hashes@, r as int),
            r != SENTINEL,
    {
        let mut message: Vec<u8> = Vec::new();
        let ghost mut messages: Seq<Seq<u8>> = Seq::empty();
        let n: usize = hashes.len();
        let mut i: usize = 0;
        while i < n
            invariant
                i <= n,
                n == hashes@.len(),
                messages.len() == i,
                forall|j: int| 0 <= j < i ==> #[trigger] feeds(&hashes@[j], messages[j]),
                message@ == messages.flatten(),
            decreases n - i,
        {
            let one = message_of(&hashes[i]);
            message.extend_from_slice(one.as_slice());
            proof {
                messages.lemma_flatten_push(one@);
                assert(message@ =~= messages.flatten() + one@);
                messages = messages.push(one@);
            }
            i += 1;
        }
        assert(all_feed(hashes@, messages));
        self.hash_message(message.as_slice())
    }

    /// The hash of a sequence whose items are hashed by `hash_func`, or the first error of it.
    pub fn hash_iter<T, E, F: Fn(&T) -> Result<PyHash, E>>(&self, iter: &[T], hash_func: F) -> (r:
        Result<PyHash, E>)
        requires
            forall|i: int| 0 <= i < iter@.len() ==> call_requires(hash_func, (#[trigger] &iter@[i],)),
        ensures
            match r {
                Ok(h) => h != SENTINEL && exists|hashes: Seq<PyHash>| #[trigger]
                    self.all_hashed(hashes, h as int) && hashed_by::<T, E, F>(
                        hash_func,
                        iter@,
                        hashes,
                    ),
                Err(e) => exists|n: int, hashes: Seq<PyHash>|
                    #![trigger iter@[n], hashes.len()]
                    0 <= n < iter@.len() && call_ensures(hash_func, (&iter@[n],), Err(e))
                        && hashed_by::<T, E, F>(hash_func, iter@.take(n), hashes),
            },
    {
        let mut hashes: Vec<PyHash> = Vec::new();
        let n: usize = iter.len();
        let mut i: usize = 0;
        while i < n
            invariant
                i <= n,
                n == iter@.len(),
                hashes@.len() == i,
                forall|i: int|
                    0 <= i < iter@.len() ==> call_requires(hash_func, (#[trigger] &iter@[i],)),
                forall|j: int|
                    0 <= j < i ==> call_ensures(hash_func, (#[trigger] &iter@[j],), Ok(hashes@[j])),
            decreases n - i,
        {
            let item = &iter[i];
            match hash_func(item) {
                Ok(h) => {
                    hashes.push(h);
                },
                Err(e) => {
                    proof {
                        assert(call_ensures(hash_func, (&iter@[i as int],), Err(e)));
                        assert(hashed_by::<T, E, F>(hash_func, iter@.take(i as int), hashes@));
                        assert(hashes@.len() == i);
                    }
                    return Err(e);
                },
            }
            i += 1;
        }
        let h: PyHash = self.hash_hashes(hashes.as_slice());
        assert(self.all_hashed(hashes@, h as int));
        assert(hashed_by::<T, E, F>(hash_func, iter@, hashes@));
        Ok(h)
    }

    /// The hash of a byte string; the empty one hashes to 0 under every key.
    pub fn hash_bytes(&self, value: &[u8]) -> (r: PyHash)
        ensures
            self.bytes_hashed(value, r as int),
            r != SENTINEL,
    {
        if value.len() == 0 {
            0
        } else {
            self.hash_value(value)
        }
    }

    /// The hash of a text: that of its UTF-8 bytes.
    pub fn hash_str(&self, value: &str) -> (r: PyHash)
        ensures
            exists|bytes: &[u8]| #[trigger]
                self.bytes_hashed(bytes, r as int) && bytes@ == vstd::utf8::encode_utf8(value@),
            r != SENTINEL,
    {
        self.hash_bytes(value.as_bytes())
    }
}

/// Whether `r` is the digest, under a key of one word, of the message that a byte string feeds.
pub open spec fn digested(key: u64, buf: &[u8], r: u64) -> bool {
    exists|message: Seq<u8>| #[trigger] feeds(buf, message) && r == sip24_digest(key, 0, message)
}

/// The digest of a byte string under a key of one word.
pub fn keyed_hash(key: u64, buf: &[u8]) -> (r: u64)
    ensures
        digested(key, buf, r),
{
    let message = message_of(buf);
    sip24(key, 0, message.as_slice())
}

/// Whether the bits of a double say that it is negative.
pub open spec fn float_negative(bits: u64) -> bool {
    bits >= 0x8000_0000_0000_0000
}

/// The biased exponent in the bits of a double.
pub open spec fn float_biased(bits: u64) -> int {
    (bits as int / 0x10_0000_0000_0000) % 0x800
}

/// The fraction in the bits of a double.
pub open spec fn float_fraction(bits: u64) -> int {
    bits as int % 0x10_0000_0000_0000
}

/// A finite double is, up to its sign, `float_mantissa * 2**float_exponent`.
pub open spec fn float_mantissa(bits: u64) -> int {
    if float_biased(bits) == 0 {
        float_fraction(bits)
    } else {
        float_fraction(bits) + 0x10_0000_0000_0000
    }
}

/// See [`float_mantissa`].
pub open spec fn float_exponent(bits: u64) -> int {
    if float_biased(bits) == 0 {
        -1074
    } else {
        float_biased(bits) - 1075
    }
}

/// The hash of a double, given by its bits: a finite one hashes to its value modulo
/// [`MODULUS`], with its sign, an infinite one to [`INF`] with its sign, and a NaN has no hash.
pub open spec fn float_hash(bits: u64) -> Option<int> {
    if float_biased(bits) == 0x7ff {
        if float_fraction(bits) == 0 {
            Some(if float_negative(bits) { -INF } else { INF as int })
        } else {
            None
        }
    } else {
        let x = scaled(float_mantissa(bits), float_exponent(bits));
        Some(settled(if float_negative(bits) { -x } else { x }))
    }
}

/// The fraction and exponent of a finite double as `frexp` gives them: the value is
/// `m / 2**53 * 2**e` with `m` zero or of exactly 53 bits.
fn decompose(biased: u64, fraction: u64) -> (r: (u64, i32))
    requires
        biased < 0x7ff,
        fraction < 0x10_0000_0000_0000,
    ensures
        r.0 == 0 || 0x10_0000_0000_0000 <= r.0 < 0x20_0000_0000_0000,
        -2000 < r.1 < 2000,
        ({
            let m = if biased == 0 { fraction as int } else { fraction + 0x10_0000_0000_0000 };
            let e = if biased == 0 { -1074 } else { biased - 1075 };
            scaled(r.0 as int, r.1 - 53) == scaled(m, e)
        }),
{
    if biased != 0 {
        return (fraction + 0x10_0000_0000_0000, biased as i32 - 1022);
    }
    if fraction == 0 {
        proof {
            assert(scaled(0, -53) == 0);
            assert(scaled(0, -1074) == 0);
        }
        return (0, 0);
    }
    let mut m: u64 = fraction;
    let mut e: i32 = -1021;
    proof {
        lemma2_to64();
    }
    while m < 0x10_0000_0000_0000
        invariant
            0 < m < 0x20_0000_0000_0000,
            -1021 - m <= e <= -1021,
            -1080 < e,
            m >= pow2((-1021 - e) as nat),
            scaled(m as int, e - 53) == scaled(fraction as int, -1074),
        decreases 0x20_0000_0000_0000 - m,
    {
        proof {
            lemma2_to64();
            lemma2_to64_rest();
            lemma_pow2_adds(1, (-1021 - e) as nat);
            lemma_scaled_shift(m as int, 1, e - 54);
            if -1021 - e >= 52 {
                if -1021 - e > 52 {
                    vstd::arithmetic::power2::lemma_pow2_strictly_increases(52, (-1021 - e) as nat);
                }
                assert(false);
            }
        }
        m = m * 2;
        e = e - 1;
    }
    (m, e)
}

/// What the mantissa taken in chunks adds up to.
proof fn lemma_chunks(m0: u64, e0: int, x: u64, e: int)
    requires
        (m0 == 0 && x == 0) || (e == e0 - 28 && x == m0 / 0x200_0000 && m0 % 0x200_0000 == 0) || (e
            == e0 - 56 && x == 8 * m0),
    ensures
        scaled(x as int, e) == scaled(m0 as int, e0 - 53),
{
    lemma2_to64();
    if m0 == 0 && x == 0 {
        assert(scaled(0, e) == 0);
        assert(scaled(0, e0 - 53) == 0);
    } else if e == e0 - 28 {
        lemma_scaled_shift(x as int, 25, e0 - 53);
    } else {
        lemma_scaled_shift(m0 as int, 3, e);
    }
}

/// `m0 / 2**53 * 2**e0` modulo [`MODULUS`]. The mantissa is taken 28 bits at a time, which works
/// well both for binary and hexadecimal floating point.
fn scale_mantissa(m0: u64, e0: i32) -> (r: PyUHash)
    requires
        m0 < 0x20_0000_0000_0000,
        -2000 < e0 < 2000,
    ensures
        r < MODULUS,
        r == scaled(m0 as int, e0 - 53),
{
    let mut m: u64 = m0;
    let mut e: i32 = e0;
    let mut x: PyUHash = 0;
    while m != 0
        invariant
            x < MODULUS,
            m < 0x20_0000_0000_0000,
            m0 < 0x20_0000_0000_0000,
            -2000 < e0 < 2000,
            (m == m0 && e == e0 && x == 0) || (e == e0 - 28 && x == m0 / 0x200_0000 && m == (m0
                % 0x200_0000) * 0x1000_0000) || (e == e0 - 56 && m == 0 && x == 8 * m0),
        decreases (if m == 0 { 0int } else { e - e0 + 100 }),
    {
        let ghost x0 = x;
        x = rotate(x, 28);
        let y: u64 = m / 0x200_0000;
        proof {
            lemma2_to64();
            assert(pow2(28) == 0x1000_0000);
            assert(x0 * 0x1000_0000 < MODULUS);
            vstd::arithmetic::div_mod::lemma_small_mod((x0 * 0x1000_0000) as nat, MODULUS as nat);
        }
        m = (m % 0x200_0000) * 0x1000_0000;
        e = e - 28;
        x = x + y;
        if x >= MODULUS {
            x = x - MODULUS;
        }
    }
    proof {
        lemma_chunks(m0, e0 as int, x, e as int);
    }
    // Adjust for the exponent, reduced modulo the number of bits.
    let k: u32 = if e >= 0 {
        (e % 61) as u32
    } else {
        60 - ((-1 - e) % 61) as u32
    };
    assert(k == (e as int) % 61);
    rotate(x, k)
}

/// The hash of a double, from its bits.
pub fn hash_float(bits: u64) -> (r: Option<PyHash>)
    ensures
        match float_hash(bits) {
            Some(h) => r is Some && r->0 == h && h != SENTINEL,
            None => r is None,
        },
{
    let negative: bool = bits >= 0x8000_0000_0000_0000;
    let biased: u64 = (bits / 0x10_0000_0000_0000) % 0x800;
    let fraction: u64 = bits % 0x10_0000_0000_0000;
    if biased == 0x7ff {
        return if fraction == 0 {
            Some(if negative { -INF } else { INF })
        } else {
            None
        };
    }
    let (m0, e0) = decompose(biased, fraction);
    let x: u64 = scale_mantissa(m0, e0);
    let signed: i64 = if negative { -(x as i64) } else { x as i64 };
    Some(fix_sentinel(signed))
}

/// No settled hash is the sentinel, and settling twice is settling once.
pub proof fn settled_is_no_sentinel(h: int)
    ensures
        settled(h) != SENTINEL,
        settled(settled(h)) == settled(h),
{
}

/// The hash of an integer lies strictly between `-MODULUS` and [`MODULUS`] and has the
/// integer's sign, and before it is settled it is congruent to the integer.
pub proof fn integer_hash_is_remainder(v: int)
    ensures
        -MODULUS < reduced(v) < MODULUS,
        -MODULUS < settled(reduced(v)) < MODULUS,
        v >= 0 ==> reduced(v) >= 0,
        v <= 0 ==> reduced(v) <= 0,
        reduced(v) % (MODULUS as int) == v % (MODULUS as int),
{
    let m = MODULUS as int;
    if v < 0 {
        let q = (-v) / m;
        let r = (-v) % m;
        vstd::arithmetic::div_mod::lemma_fundamental_div_mod(-v, m);
        assert(v == m * (-q) + (-r)) by (nonlinear_arith)
            requires
                -v == m * q + r,
        ;
        vstd::arithmetic::div_mod::lemma_mod_multiples_vanish(-q, -r, m);
    } else {
        vstd::arithmetic::div_mod::lemma_mod_twice(v, m);
    }
}

/// Negation of an integer negates its hash, but for the one hash that settling moves.
pub proof fn integer_hash_is_odd(v: int)
    ensures
        reduced(-v) == -reduced(v),
        reduced(v) != 1 && reduced(v) != -1 ==> settled(reduced(-v)) == -settled(reduced(v)),
{
    vstd::arithmetic::div_mod::lemma_small_mod(0, MODULUS as nat);
}

/// An integer that is its own remainder hashes to itself.
pub proof fn small_integer_hashes_to_itself(v: int)
    requires
        -MODULUS < v < MODULUS,
        v != SENTINEL,
    ensures
        settled(reduced(v)) == v,
{
    if v >= 0 {
        vstd::arithmetic::div_mod::lemma_small_mod(v as nat, MODULUS as nat);
    } else {
        vstd::arithmetic::div_mod::lemma_small_mod((-v) as nat, MODULUS as nat);
    }
}

/// A machine word below `2**63` hashes like the integer of the same value.
pub proof fn word_hashes_like_integer(data: usize)
    requires
        data <= i64::MAX,
    ensures
        settled(reduced(as_signed(data as int))) == settled(reduced(data as int)),
{
}

/// Whether the double with these bits is finite and, up to its sign, the integer `n`.
pub open spec fn float_is_integer(bits: u64, n: int) -> bool {
    &&& float_biased(bits) != 0x7ff
    &&& if float_exponent(bits) >= 0 {
        n == float_mantissa(bits) * pow2(float_exponent(bits) as nat)
    } else {
        n * pow2((-float_exponent(bits)) as nat) == float_mantissa(bits)
    }
}

/// A double whose value is an integer hashes like that integer.
pub proof fn integral_float_hashes_like_integer(bits: u64, n: int)
    requires
        float_is_integer(bits, n),
    ensures
        float_hash(bits) == Some(
            settled(
                reduced(
                    if float_negative(bits) {
                        -n
                    } else {
                        n
                    },
                ),
            ),
        ),
{
    let m = float_mantissa(bits);
    let e = float_exponent(bits);
    lemma2_to64();
    assert(m >= 0);
    if e >= 0 {
        lemma_scaled_shift(m, e as nat, 0);
        vstd::arithmetic::power2::lemma_pow2_pos(e as nat);
        assert(n >= 0) by (nonlinear_arith)
            requires
                n == m * pow2(e as nat),
                m >= 0,
                pow2(e as nat) > 0,
        ;
    } else {
        lemma_scaled_shift(n, (-e) as nat, e);
        vstd::arithmetic::power2::lemma_pow2_pos((-e) as nat);
        assert(n >= 0) by (nonlinear_arith)
            requires
                n * pow2((-e) as nat) == m,
                m >= 0,
                pow2((-e) as nat) > 0,
        ;
    }
    assert(scaled(m, e) == scaled(n, 0));
    assert(n * pow2((0int % 61) as nat) == n) by (nonlinear_arith)
        requires
            pow2((0int % 61) as nat) == 1,
    ;
    vstd::arithmetic::div_mod::lemma_small_mod(0, MODULUS as nat);
}

/// The two zeros hash alike.
pub proof fn zeros_hash_alike()
    ensures
        float_hash(0) == Some(0int),
        float_hash(0x8000_0000_0000_0000) == Some(0int),
{
    assert(scaled(0, -1074) == 0);
}

/// The empty byte string hashes to 0 whatever the key is, and every other one as a value does.
pub proof fn byte_strings_hash_like_values(secret: HashSecret, value: &[u8], r: int)
    ensures
        value@.len() == 0 ==> (secret.bytes_hashed(value, r) <==> r == 0),
        value@.len() > 0 ==> (secret.bytes_hashed(value, r) <==> secret.hashed(value, r)),
        secret.bytes_hashed(value, r) ==> r != SENTINEL,
{
}

/// A digest of a byte string under a key of one word is one that a secret of that word and 0 makes
/// the hash of a value of; the empty byte string has a digest like every other one.
pub proof fn keyed_digest_is_not_reduced(secret: HashSecret, key: u64, buf: &[u8], digest: u64)
    requires
        secret.first() == key,
        secret.second() == 0,
        digested(key, buf, digest),
    ensures
        secret.hashed(buf, digest_hash(digest)),
        buf@.len() > 0 ==> secret.bytes_hashed(buf, digest_hash(digest)),
{
    let message = choose|message: Seq<u8>| #[trigger]
        feeds(buf, message) && digest == sip24_digest(key, 0, message);
    assert(digest_hash(digest) == secret.message_hash(message));
}

/// The generator goes on from the state it has reached.
pub proof fn generator_continues(x: u32, m: nat, n: nat)
    ensures
        lcg_state(x, m + n) == lcg_state(lcg_state(x, m), n),
    decreases n,
{
    if n > 0 {
        generator_continues(x, m, (n - 1) as nat);
        assert((m + n - 1) as nat == m + (n - 1) as nat);
    }
}

} // verus!
