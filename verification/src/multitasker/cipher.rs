//! The toy encryption and hash of the `async` task.

use vstd::prelude::*;

verus! {

/// Key that the text is encrypted with, repeated over its whole length.
pub const ENC_KEY: [u8; 13] = [
    0x66, 0x64, 0x40, 0x61, 0x47, 0x36, 0x39, 0x32, 0x2d, 0x64, 0x37, 0x30, 0x73,
];

/// `data` encrypted: every byte is combined with the key byte in its place.
pub open spec fn ciphered(data: Seq<u8>) -> Seq<u8> {
    Seq::new(data.len(), |i: int| data[i] ^ ENC_KEY@[i % 13])
}

/// Encrypts `data` in place.
pub fn xor_cipher(data: &mut [u8])
    ensures
        final(data)@ == ciphered(old(data)@),
{
    let mut i: usize = 0;
    while i < data.len()
        invariant
            i <= data@.len(),
            data@.len() == old(data)@.len(),
            forall|j: int| 0 <= j < i ==> data@[j] == ciphered(old(data)@)[j],
            forall|j: int| i <= j < data@.len() ==> data@[j] == old(data)@[j],
        decreases data@.len() - i,
    {
        let key_byte: u8 = ENC_KEY[i % 13];
        let byte: u8 = data[i];
        data[i] = byte ^ key_byte;
        i += 1;
    }
    assert(data@ =~= ciphered(old(data)@));
}

/// The hash of `data`: its bytes are combined four to a word, the first of four
/// in the lowest place.
pub open spec fn hashed(data: Seq<u8>) -> u32
    decreases data.len(),
{
    if data.len() == 0 {
        0
    } else {
        hashed(data.drop_last()) ^ ((data.last() as u32) << (((data.len() - 1) % 4 * 8) as u32))
    }
}

/// Hashes `data`.
pub fn xor_hash(data: &[u8]) -> (r: u32)
    ensures
        r == hashed(data@),
{
    let mut hash: u32 = 0;
    let mut i: usize = 0;
    assert(data@.take(0) =~= Seq::<u8>::empty());
    while i < data.len()
        invariant
            i <= data@.len(),
            hash == hashed(data@.take(i as int)),
        decreases data@.len() - i,
    {
        assert(data@.take(i + 1).drop_last() =~= data@.take(i as int));
        let shift: u32 = (i % 4) as u32 * 8;
        hash = hash ^ ((data[i] as u32) << shift);
        i += 1;
    }
    assert(data@.take(i as int) =~= data@);
    hash
}

/// Encrypting twice gives the text back.
pub proof fn law_cipher_undoes_itself(data: Seq<u8>)
    ensures
        ciphered(ciphered(data)) == data,
{
    assert forall|i: int| 0 <= i < data.len() implies ciphered(ciphered(data))[i] == data[i] by {
        let (b, k) = (data[i], ENC_KEY@[i % 13]);
        assert((b ^ k) ^ k == b) by (bit_vector);
    }
    assert(ciphered(ciphered(data)) =~= data);
}

/// An encrypted ASCII text is ASCII again, so it is valid text.
pub proof fn law_cipher_keeps_ascii(data: Seq<u8>)
    requires
        forall|i: int| 0 <= i < data.len() ==> #[trigger] data[i] < 0x80,
    ensures
        forall|i: int| 0 <= i < data.len() ==> #[trigger] ciphered(data)[i] < 0x80,
{
    assert forall|i: int| 0 <= i < data.len() implies #[trigger] ciphered(data)[i] < 0x80 by {
        let (b, k) = (data[i], ENC_KEY@[i % 13]);
        assert(b < 0x80);
        assert(k < 0x80);
        assert(b ^ k < 0x80) by (bit_vector)
            requires
                b < 0x80,
                k < 0x80,
        ;
    }
}

/// The hash of two joined texts combines their hashes, where the first consists
/// of whole groups of four.
pub proof fn law_hash_of_joined(a: Seq<u8>, b: Seq<u8>)
    requires
        a.len() % 4 == 0,
    ensures
        hashed(a + b) == hashed(a) ^ hashed(b),
    decreases b.len(),
{
    let h = hashed(a);
    if b.len() == 0 {
        assert(a + b =~= a);
        assert(h ^ 0 == h) by (bit_vector);
    } else {
        law_hash_of_joined(a, b.drop_last());
        assert((a + b).drop_last() =~= a + b.drop_last());
        assert((a + b).last() == b.last());
        assert(((a + b).len() - 1) % 4 == (b.len() - 1) % 4);
        let g = hashed(b.drop_last());
        let m = (b.last() as u32) << (((b.len() - 1) % 4 * 8) as u32);
        assert((h ^ g) ^ m == h ^ (g ^ m)) by (bit_vector);
    }
}

/// The bytes in the places `lane`, `lane + 4`, `lane + 8` and so on, combined.
pub open spec fn lane_of(data: Seq<u8>, lane: int) -> u8
    decreases data.len(),
{
    if data.len() == 0 {
        0
    } else if (data.len() - 1) % 4 == lane {
        lane_of(data.drop_last(), lane) ^ data.last()
    } else {
        lane_of(data.drop_last(), lane)
    }
}

/// Every byte of the hash combines one in four bytes of the text, and no other.
pub proof fn law_hash_lanes(data: Seq<u8>, lane: u32)
    requires
        lane < 4,
    ensures
        (hashed(data) >> (lane * 8) as u32) & 0xff == lane_of(data, lane as int) as u32,
    decreases data.len(),
{
    let t = (lane * 8) as u32;
    if data.len() == 0 {
        assert((0u32 >> t) & 0xff == 0) by (bit_vector);
    } else {
        law_hash_lanes(data.drop_last(), lane);
        let h = hashed(data.drop_last());
        let b = data.last();
        let s = ((data.len() - 1) % 4 * 8) as u32;
        let old_lane = lane_of(data.drop_last(), lane as int);
        assert(s == 0 || s == 8 || s == 16 || s == 24);
        assert(t == 0 || t == 8 || t == 16 || t == 24);
        if s == t {
            assert(((h ^ ((b as u32) << s)) >> t) & 0xff == (old_lane ^ b) as u32) by (bit_vector)
                requires
                    s == t,
                    t == 0 || t == 8 || t == 16 || t == 24,
                    (h >> t) & 0xff == old_lane as u32,
            ;
        } else {
            assert(((h ^ ((b as u32) << s)) >> t) & 0xff == old_lane as u32) by (bit_vector)
                requires
                    s != t,
                    s == 0 || s == 8 || s == 16 || s == 24,
                    t == 0 || t == 8 || t == 16 || t == 24,
                    (h >> t) & 0xff == old_lane as u32,
            ;
        }
    }
}

} // verus!
