//! The cryptographic pipeline: SHA-256 key stretching, passphrase
//! verification material, Twofish key unwrap, CBC body decryption and the
//! keyed MAC.  The primitives themselves come from outside crates and are
//! reached only through the trusted wrappers below; everything built on top
//! of them is verified against the named results.
use vstd::prelude::*;
use hmac::{Hmac, Mac, KeyInit};
use sha2::Digest;

verus! {

/// The SHA-256 digest of `data`; a function of the input bytes alone.
pub uninterp spec fn sha256_of(data: Seq<u8>) -> Seq<u8>;

/// The Twofish decryption of one 16-byte `block` under the 256-bit `key`;
/// a function of key and block alone.
pub uninterp spec fn twofish_decrypt256(key: Seq<u8>, block: Seq<u8>) -> Seq<u8>;

/// The HMAC-SHA-256 tag over `data` under `key`; a function of both alone.
pub uninterp spec fn hmac_sha256_of(key: Seq<u8>, data: Seq<u8>) -> Seq<u8>;

/// `s` with surrounding whitespace removed; a function of the characters
/// alone.
pub uninterp spec fn trim_of(s: Seq<char>) -> Seq<char>;

/// Relies on `sha2::Sha256::digest`: the 32-byte SHA-256 digest of the
/// input bytes.
#[verifier::external_body]
pub(crate) fn sha256_digest(data: &Vec<u8>) -> (r: Vec<u8>)
    ensures
        r@ == sha256_of(data@),
        r@.len() == 32,
{
    sha2::Sha256::digest(data.as_slice()).to_vec()
}

/// Relies on `lsx::Twofish::new256` and `lsx::Twofish::decrypt`: one
/// 16-byte block deciphered under a 256-bit key.
#[verifier::external_body]
pub(crate) fn twofish_decrypt_block(key: &Vec<u8>, block: &Vec<u8>) -> (r: Vec<u8>)
    requires
        key@.len() == 32,
        block@.len() == 16,
    ensures
        r@ == twofish_decrypt256(key@, block@),
        r@.len() == 16,
{
    let mut k = [0u8; 32];
    k.copy_from_slice(key.as_slice());
    let mut b = [0u8; 16];
    b.copy_from_slice(block.as_slice());
    let mut o = [0u8; 16];
    lsx::Twofish::new256(&k).decrypt(&b, &mut o);
    o.to_vec()
}

/// Relies on `hmac::Hmac::<Sha256>` (`KeyInit::new_from_slice`,
/// `Mac::update`, `Mac::finalize`): the RFC 2104 keyed tag over `data`
/// under `key`.  Construction cannot fail: `new_from_slice` for `Hmac`
/// accepts keys of any length and returns `Ok` unconditionally.
#[verifier::external_body]
pub(crate) fn hmac_sha256_tag(key: &Vec<u8>, data: &Vec<u8>) -> (r: Vec<u8>)
    ensures
        r@ == hmac_sha256_of(key@, data@),
        r@.len() == 32,
{
    let mut m: Hmac<sha2::Sha256> = Hmac::new_from_slice(key.as_slice()).expect(
        "HMAC accepts keys of any length",
    );
    m.update(data.as_slice());
    m.finalize().into_bytes().to_vec()
}

/// Relies on `str::trim`: the input without leading and trailing
/// whitespace.
#[verifier::external_body]
pub(crate) fn trim_str(s: &str) -> (r: &str)
    ensures
        r@ == trim_of(s@),
{
    s.trim()
}

/// The stretched key P': `iter` extra SHA-256 rounds applied to the salted
/// hash of the passphrase bytes.
pub open spec fn stretch_key_spec(pw: Seq<u8>, salt: Seq<u8>, iter: nat) -> Seq<u8>
    decreases iter,
{
    if iter == 0 {
        sha256_of(pw + salt)
    } else {
        sha256_of(stretch_key_spec(pw, salt, (iter - 1) as nat))
    }
}

/// Whether `hash` is the SHA-256 of the stretched key derived from the
/// passphrase bytes `pw` — the sole acceptance test for a passphrase.
pub open spec fn key_matches(pw: Seq<u8>, salt: Seq<u8>, iter: nat, hash: Seq<u8>) -> bool {
    sha256_of(stretch_key_spec(pw, salt, iter)) == hash
}

/// One 256-bit key recovered from two Twofish-ECB blocks under the
/// stretched key.
pub open spec fn unwrap_key_spec(stretched: Seq<u8>, ba: Seq<u8>, bb: Seq<u8>) -> Seq<u8> {
    twofish_decrypt256(stretched, ba) + twofish_decrypt256(stretched, bb)
}

/// Byte-wise exclusive or of two sequences of equal length.
pub open spec fn xor_bytes(a: Seq<u8>, b: Seq<u8>) -> Seq<u8>
    recommends
        a.len() == b.len(),
{
    Seq::new(a.len(), |i: int| a[i] ^ b[i])
}

/// CBC decryption of `ct` under `key`, where `prev` is the previous
/// ciphertext block (the IV for the first block).  Trailing bytes short of
/// a whole 16-byte block are ignored.
pub open spec fn cbc_decrypt_spec(key: Seq<u8>, prev: Seq<u8>, ct: Seq<u8>) -> Seq<u8>
    decreases ct.len(),
{
    if ct.len() < 16 {
        Seq::empty()
    } else {
        xor_bytes(twofish_decrypt256(key, ct.take(16)), prev) + cbc_decrypt_spec(
            key,
            ct.take(16),
            ct.skip(16),
        )
    }
}

/// Byte-wise exclusive or of `buf` into `in_out`.
pub fn _xor_block(in_out: &mut Vec<u8>, buf: &Vec<u8>)
    requires
        old(in_out)@.len() == buf@.len(),
    ensures
        final(in_out)@ == xor_bytes(old(in_out)@, buf@),
{
    let n = in_out.len();
    for i in 0..n
        invariant
            in_out@.len() == n,
            buf@.len() == n,
            forall|j: int| 0 <= j < i ==> in_out@[j] == (old(in_out)@[j] ^ buf@[j]),
            forall|j: int| i <= j < n ==> in_out@[j] == old(in_out)@[j],
    {
        let x = in_out[i] ^ buf[i];
        in_out.set(i, x);
    }
    proof {
        assert(final(in_out)@ =~= xor_bytes(old(in_out)@, buf@));
    }
}

/// Appends every byte of `src` to `dst`.
pub fn append_bytes(dst: &mut Vec<u8>, src: &Vec<u8>)
    ensures
        final(dst)@ == old(dst)@ + src@,
{
    let n = src.len();
    for i in 0..n
        invariant
            n == src@.len(),
            dst@ == old(dst)@ + src@.take(i as int),
    {
        dst.push(src[i]);
        proof {
            assert(old(dst)@ + src@.take(i as int) + seq![src@[i as int]] =~= old(dst)@
                + src@.take(i + 1));
        }
    }
    proof {
        assert(src@.take(n as int) =~= src@);
    }
}

/// Appends every byte of the slice `src` to `dst`.
pub fn append_slice(dst: &mut Vec<u8>, src: &[u8])
    ensures
        final(dst)@ == old(dst)@ + src@,
{
    let n = src.len();
    for i in 0..n
        invariant
            n == src@.len(),
            dst@ == old(dst)@ + src@.take(i as int),
    {
        dst.push(*vstd::slice::slice_index_get(src, i));
        proof {
            assert(old(dst)@ + src@.take(i as int) + seq![src@[i as int]] =~= old(dst)@
                + src@.take(i + 1));
        }
    }
    proof {
        assert(src@.take(n as int) =~= src@);
    }
}

/// Whether two byte vectors hold the same bytes.  Over inputs of equal
/// length the comparison runs in constant time: every byte is folded into
/// an accumulator, with no early exit on the first difference.
pub fn bytes_eq(a: &Vec<u8>, b: &Vec<u8>) -> (r: bool)
    ensures
        r == (a@ == b@),
{
    if a.len() != b.len() {
        proof {
            assert(a@.len() != b@.len());
        }
        return false;
    }
    let n = a.len();
    let mut diff: u8 = 0;
    for i in 0..n
        invariant
            a@.len() == n,
            b@.len() == n,
            (diff == 0) <==> (forall|j: int| 0 <= j < i ==> a@[j] == b@[j]),
    {
        let x = a[i];
        let y = b[i];
        proof {
            assert((diff | (x ^ y)) == 0 <==> diff == 0 && x == y) by (bit_vector);
        }
        diff = diff | (x ^ y);
    }
    if diff == 0 {
        proof {
            assert(a@ =~= b@);
        }
        true
    } else {
        false
    }
}

} // verus!
