//! The PWS3 container: byte-exact layout validation, salt / iteration /
//! key-block / IV / body / MAC extraction, passphrase checking and CBC body
//! decryption.
use vstd::prelude::*;
use vstd::slice::{slice_index_get, slice_subrange, slice_to_vec};
use vstd::utf8::encode_utf8;
use crate::pwserrors::PwSafeError;
use crate::util::le32;
use crate::crypt::{
    trim_of, stretch_key_spec, key_matches, unwrap_key_spec, cbc_decrypt_spec,
    xor_bytes, twofish_decrypt256, sha256_digest, twofish_decrypt_block, trim_str, bytes_eq,
    _xor_block, append_bytes,
};

verus! {

/// The byte at position `i` of the EOF sentinel `PWS3-EOFPWS3-EOF`; the
/// first four bytes also form the leading file tag `PWS3`.
pub open spec fn eof_byte(i: int) -> u8 {
    let j = if i >= 8 {
        i - 8
    } else {
        i
    };
    if j == 0 {
        0x50
    } else if j == 1 {
        0x57
    } else if j == 2 {
        0x53
    } else if j == 3 {
        0x33
    } else if j == 4 {
        0x2d
    } else if j == 5 {
        0x45
    } else if j == 6 {
        0x4f
    } else {
        0x46
    }
}

/// The 16-byte EOF sentinel as a sequence.
pub open spec fn eof_seq() -> Seq<u8> {
    Seq::new(16, |i: int| eof_byte(i))
}

/// Whether the file begins with the ASCII tag `PWS3`.
pub open spec fn has_tag(b: Seq<u8>) -> bool {
    b.len() >= 4 && b[0] == 0x50u8 && b[1] == 0x57u8 && b[2] == 0x53u8 && b[3] == 0x33u8
}

/// Whether the 16 bytes of `b` starting at `p` are the EOF sentinel.
pub open spec fn eof_at(b: Seq<u8>, p: int) -> bool {
    0 <= p && p + 16 <= b.len() && b.subrange(p, p + 16) == eof_seq()
}

/// The first position at or after `i` where the EOF sentinel occurs.
pub open spec fn first_eof_from(b: Seq<u8>, i: int) -> Option<int>
    recommends
        0 <= i,
    decreases b.len() - i,
{
    if i < 0 || i + 16 > b.len() {
        None
    } else if b.subrange(i, i + 16) == eof_seq() {
        Some(i)
    } else {
        first_eof_from(b, i + 1)
    }
}

/// What a `first_eof_from` result means: `Some(p)` is the least sentinel
/// position at or after `i`, `None` says there is none.
pub proof fn lemma_first_eof_props(b: Seq<u8>, i: int)
    requires
        0 <= i,
    ensures
        match first_eof_from(b, i) {
            Some(p) => i <= p && eof_at(b, p) && forall|q: int| i <= q < p ==> !eof_at(b, q),
            None => forall|q: int| i <= q ==> !eof_at(b, q),
        },
    decreases b.len() - i,
{
    if i + 16 > b.len() {
        assert forall|q: int| i <= q implies !eof_at(b, q) by {
            assert(q + 16 > b.len());
        }
    } else if b.subrange(i, i + 16) == eof_seq() {
    } else {
        lemma_first_eof_props(b, i + 1);
        assert(!eof_at(b, i));
    }
}

/// The least sentinel position determines the scan result: if the
/// sentinel sits at `p` and nowhere earlier than `i`, the scan from `i`
/// finds exactly `p`.
pub proof fn lemma_first_eof_least(b: Seq<u8>, i: int, p: int)
    requires
        0 <= i <= p,
        eof_at(b, p),
        forall|q: int| i <= q < p ==> !eof_at(b, q),
    ensures
        first_eof_from(b, i) == Some(p),
    decreases p - i,
{
    if i == p {
    } else {
        assert(!eof_at(b, i));
        lemma_first_eof_least(b, i + 1, p);
    }
}

/// A well-formed v3 file with `k` body blocks: the tag, the fixed key
/// block, `16·k` body bytes, the sentinel at the body end and nowhere
/// earlier, and the 32-byte MAC tag — `152 + 16·k + 16 + 32` bytes in all.
pub open spec fn valid_pws3_shape(b: Seq<u8>, k: int) -> bool {
    &&& k >= 0
    &&& b.len() == 200 + 16 * k
    &&& has_tag(b)
    &&& eof_at(b, 152 + 16 * k)
    &&& forall|q: int| 0 <= q < 152 + 16 * k ==> !eof_at(b, q)
}

/// Container acceptance law: a file of the well-formed shape with `k`
/// body blocks has length `152 + 16·k + 16 + 32` and is accepted, with
/// the body ending exactly at the sentinel.
pub proof fn lemma_open_accepts(b: Seq<u8>, k: int)
    requires
        valid_pws3_shape(b, k),
    ensures
        scan_container(b) == Ok::<int, PwSafeError>(152 + 16 * k),
        b.len() == 152 + 16 * k + 16 + 32,
{
    lemma_first_eof_least(b, 0, 152 + 16 * k);
}

/// The converse of acceptance: an accepted file begins with the tag and
/// holds the sentinel at the accepted body end — and nowhere earlier —
/// with room for the MAC tag after it.
pub proof fn lemma_open_demands(b: Seq<u8>)
    requires
        scan_container(b) is Ok,
    ensures
        scan_container(b) == Ok::<int, PwSafeError>(eof_pos(b)),
        has_tag(b),
        eof_at(b, eof_pos(b)),
        forall|q: int| 0 <= q < eof_pos(b) ==> !eof_at(b, q),
        152 <= eof_pos(b),
        b.len() >= eof_pos(b) + 48,
{
    lemma_first_eof_props(b, 0);
}

/// The position of the first EOF sentinel, or -1 if there is none.
pub open spec fn eof_pos(b: Seq<u8>) -> int {
    match first_eof_from(b, 0) {
        Some(p) => p,
        None => -1,
    }
}

/// Offset of the first body byte: tag, salt, iteration count, stretched-key
/// hash, B1..B4 and IV precede it.
pub open spec fn body_start() -> int {
    152
}

/// The outcome of validating the container layout of `b`: the sentinel
/// position on success, the exact failure otherwise.
pub open spec fn scan_container(b: Seq<u8>) -> Result<int, PwSafeError> {
    if !has_tag(b) {
        Err(PwSafeError::FileNotSupported)
    } else if first_eof_from(b, 0) is None {
        Err(PwSafeError::EofSentinelMissing)
    } else if eof_pos(b) < body_start() {
        Err(PwSafeError::EofPositionError)
    } else if b.len() < eof_pos(b) + 48 {
        Err(PwSafeError::FileTooSmall)
    } else {
        Ok(eof_pos(b))
    }
}

/// The mathematical value of a container: every sliced field of the file.
pub ghost struct ContainerV {
    pub salt: Seq<u8>,
    pub iter: u32,
    pub key_hash: Seq<u8>,
    pub b1: Seq<u8>,
    pub b2: Seq<u8>,
    pub b3: Seq<u8>,
    pub b4: Seq<u8>,
    pub iv: Seq<u8>,
    pub enc_db: Seq<u8>,
    pub db_end: int,
    pub mac: Seq<u8>,
}

/// The container value that loading a validated file `b` produces.
pub open spec fn loaded_container(b: Seq<u8>) -> ContainerV
    recommends
        scan_container(b) is Ok,
{
    let p = eof_pos(b);
    ContainerV {
        salt: b.subrange(4, 36),
        iter: le32(b.subrange(36, 40)) as u32,
        key_hash: b.subrange(40, 72),
        b1: b.subrange(72, 88),
        b2: b.subrange(88, 104),
        b3: b.subrange(104, 120),
        b4: b.subrange(120, 136),
        iv: b.subrange(136, 152),
        enc_db: b.subrange(152, p),
        db_end: p,
        mac: b.subrange(p + 16, p + 48),
    }
}

/// The passphrase bytes actually used for key derivation: the UTF-8
/// encoding of the passphrase with surrounding whitespace removed.
pub open spec fn pass_bytes(phrase: Seq<char>) -> Seq<u8> {
    encode_utf8(trim_of(phrase))
}

/// The data key K of a container under a passphrase.
pub open spec fn data_key_spec(c: ContainerV, pwb: Seq<u8>) -> Seq<u8> {
    unwrap_key_spec(stretch_key_spec(pwb, c.salt, c.iter as nat), c.b1, c.b2)
}

/// The MAC key L of a container under a passphrase.
pub open spec fn mac_key_spec(c: ContainerV, pwb: Seq<u8>) -> Seq<u8> {
    unwrap_key_spec(stretch_key_spec(pwb, c.salt, c.iter as nat), c.b3, c.b4)
}

/// The plaintext body of a container under a passphrase.
pub open spec fn plaintext_spec(c: ContainerV, pwb: Seq<u8>) -> Seq<u8> {
    cbc_decrypt_spec(data_key_spec(c, pwb), c.iv, c.enc_db)
}

/// The encrypted container: every field sliced from the raw file bytes.
pub struct PwSafeEncrypted {
    salt: Vec<u8>,
    iter: u32,
    stretch_key: Vec<u8>,
    b1: Vec<u8>,
    b2: Vec<u8>,
    b3: Vec<u8>,
    b4: Vec<u8>,
    iv: Vec<u8>,
    enc_db: Vec<u8>,
    db_end: usize,
    hmac: Vec<u8>,
}

impl View for PwSafeEncrypted {
    type V = ContainerV;

    closed spec fn view(&self) -> ContainerV {
        ContainerV {
            salt: self.salt@,
            iter: self.iter,
            key_hash: self.stretch_key@,
            b1: self.b1@,
            b2: self.b2@,
            b3: self.b3@,
            b4: self.b4@,
            iv: self.iv@,
            enc_db: self.enc_db@,
            db_end: self.db_end as int,
            mac: self.hmac@,
        }
    }
}

/// The decrypted plaintext together with the MAC key and the stored tag:
/// everything the TLV parser needs to finish an unlock.
pub struct PwSafeTransition {
    /// The CBC-decrypted body.
    pub plt: Vec<u8>,
    /// The unwrapped MAC key L.
    pub l: Vec<u8>,
    /// The tag stored at the end of the file.
    pub sig: Vec<u8>,
}

/// A run of `n` zero bytes.
pub open spec fn zero_bytes(n: nat) -> Seq<u8> {
    Seq::new(n, |i: int| 0u8)
}

/// A vector of `n` zero bytes.
fn zero_vec(n: usize) -> (r: Vec<u8>)
    ensures
        r@ == zero_bytes(n as nat),
{
    let mut r: Vec<u8> = Vec::new();
    for i in 0..n
        invariant
            r@.len() == i,
            forall|j: int| 0 <= j < i ==> r@[j] == 0u8,
    {
        r.push(0u8);
    }
    proof {
        assert(r@ =~= zero_bytes(n as nat));
    }
    r
}

/// Every fixed-width container field has its on-disk width.
pub open spec fn container_wf(c: ContainerV) -> bool {
    &&& c.salt.len() == 32
    &&& c.key_hash.len() == 32
    &&& c.b1.len() == 16
    &&& c.b2.len() == 16
    &&& c.b3.len() == 16
    &&& c.b4.len() == 16
    &&& c.iv.len() == 16
    &&& c.mac.len() == 32
}

impl PwSafeEncrypted {
    /// Every fixed-width field has its on-disk width.
    pub open spec fn wf(&self) -> bool {
        container_wf(self@)
    }

    /// A fresh container with zeroed fields and no body; any key
    /// derivation before a load fails on the zero iteration count.
    pub fn new() -> (r: PwSafeEncrypted)
        ensures
            r.wf(),
            r@.salt == zero_bytes(32),
            r@.key_hash == zero_bytes(32),
            r@.b1 == zero_bytes(16),
            r@.b2 == zero_bytes(16),
            r@.b3 == zero_bytes(16),
            r@.b4 == zero_bytes(16),
            r@.iv == zero_bytes(16),
            r@.mac == zero_bytes(32),
            r@.iter == 0,
            r@.enc_db == Seq::<u8>::empty(),
            r@.db_end == 0,
    {
        let r = PwSafeEncrypted {
            salt: zero_vec(32),
            iter: 0,
            stretch_key: zero_vec(32),
            b1: zero_vec(16),
            b2: zero_vec(16),
            b3: zero_vec(16),
            b4: zero_vec(16),
            iv: zero_vec(16),
            enc_db: Vec::new(),
            db_end: 0,
            hmac: zero_vec(32),
        };
        proof {
            assert(r@.enc_db =~= Seq::<u8>::empty());
        }
        r
    }

    /// Checks the leading 4-byte `PWS3` tag.
    pub fn check_tag(&self, bytes: &[u8]) -> (r: Result<(), PwSafeError>)
        ensures
            match r {
                Ok(_) => has_tag(bytes@),
                Err(e) => !has_tag(bytes@) && e == PwSafeError::FileNotSupported,
            },
    {
        if bytes.len() >= 4 && *slice_index_get(bytes, 0) == 0x50u8 && *slice_index_get(bytes, 1)
            == 0x57u8 && *slice_index_get(bytes, 2) == 0x53u8 && *slice_index_get(bytes, 3)
            == 0x33u8 {
            Ok(())
        } else {
            Err(PwSafeError::FileNotSupported)
        }
    }

    /// The sentinel byte at index `i`.
    fn eof_byte_at(i: usize) -> (r: u8)
        requires
            i < 16,
        ensures
            r == eof_byte(i as int),
    {
        let j = if i >= 8 {
            i - 8
        } else {
            i
        };
        if j == 0 {
            0x50
        } else if j == 1 {
            0x57
        } else if j == 2 {
            0x53
        } else if j == 3 {
            0x33
        } else if j == 4 {
            0x2d
        } else if j == 5 {
            0x45
        } else if j == 6 {
            0x4f
        } else {
            0x46
        }
    }

    /// Whether the sentinel sits at position `p` of `bytes`.
    fn eof_at_exec(bytes: &[u8], p: usize) -> (r: bool)
        requires
            p + 16 <= bytes@.len(),
        ensures
            r == eof_at(bytes@, p as int),
    {
        let n = bytes.len();
        for j in 0..16usize
            invariant
                p + 16 <= n,
                n == bytes@.len(),
                forall|k: int| 0 <= k < j ==> bytes@[p + k] == eof_byte(k),
        {
            let b = *slice_index_get(bytes, p + j);
            if b != Self::eof_byte_at(j) {
                proof {
                    assert(bytes@.subrange(p as int, p as int + 16)[j as int] != eof_seq()[j as int]);
                }
                return false;
            }
        }
        proof {
            assert(bytes@.subrange(p as int, p as int + 16) =~= eof_seq());
        }
        true
    }

    /// Finds the first EOF sentinel by forward scan.
    fn find_eof(bytes: &[u8]) -> (r: Option<usize>)
        ensures
            match r {
                Some(p) => first_eof_from(bytes@, 0) == Some(p as int),
                None => first_eof_from(bytes@, 0) is None,
            },
    {
        if bytes.len() < 16 {
            return None;
        }
        let last = bytes.len() - 16;
        let mut p: usize = 0;
        loop
            invariant
                p <= last + 1,
                last + 16 == bytes@.len(),
                last + 16 <= usize::MAX,
                first_eof_from(bytes@, 0) == first_eof_from(bytes@, p as int),
            decreases last + 1 - p,
        {
            if p > last {
                return None;
            }
            if Self::eof_at_exec(bytes, p) {
                return Some(p);
            }
            p = p + 1;
        }
    }

    /// Validates the container layout: tag, sentinel position and room for
    /// the MAC tag; records where the body ends.
    pub fn check_format(&mut self, bytes: &[u8]) -> (r: Result<usize, PwSafeError>)
        ensures
            match r {
                Ok(p) => scan_container(bytes@) == Ok::<int, PwSafeError>(p as int) && final(self)@
                    == (ContainerV { db_end: p as int, ..old(self)@ }),
                Err(e) => scan_container(bytes@) == Err::<int, PwSafeError>(e) && final(self)@
                    == old(self)@,
            },
    {
        match self.check_tag(bytes) {
            Ok(_) => (),
            Err(e) => {
                return Err(e);
            },
        }
        let p = match Self::find_eof(bytes) {
            Some(p) => p,
            None => {
                return Err(PwSafeError::EofSentinelMissing);
            },
        };
        proof {
            lemma_first_eof_props(bytes@, 0);
        }
        if p < 152 {
            return Err(PwSafeError::EofPositionError);
        }
        if bytes.len() - p < 48 {
            return Err(PwSafeError::FileTooSmall);
        }
        self.db_end = p;
        Ok(p)
    }

    /// Copies the 32-byte salt out of the file bytes.
    pub fn set_salt(&mut self, bytes: &[u8])
        requires
            bytes@.len() >= 152,
        ensures
            final(self)@ == (ContainerV { salt: bytes@.subrange(4, 36), ..old(self)@ }),
    {
        self.salt = slice_to_vec(slice_subrange(bytes, 4, 36));
    }

    /// Decodes the little-endian iteration count.
    pub fn set_iter(&mut self, bytes: &[u8])
        requires
            bytes@.len() >= 152,
        ensures
            final(self)@ == (ContainerV {
                iter: le32(bytes@.subrange(36, 40)) as u32,
                ..old(self)@
            }),
    {
        let window = slice_subrange(bytes, 36, 40);
        self.iter = crate::util::bytes_as_u32(window);
    }

    /// Copies the stored SHA-256 of the stretched key.
    pub fn set_key(&mut self, bytes: &[u8])
        requires
            bytes@.len() >= 152,
        ensures
            final(self)@ == (ContainerV { key_hash: bytes@.subrange(40, 72), ..old(self)@ }),
    {
        self.stretch_key = slice_to_vec(slice_subrange(bytes, 40, 72));
    }

    /// Copies the two blocks wrapping the data key K.
    pub fn set_b12(&mut self, bytes: &[u8])
        requires
            bytes@.len() >= 152,
        ensures
            final(self)@ == (ContainerV {
                b1: bytes@.subrange(72, 88),
                b2: bytes@.subrange(88, 104),
                ..old(self)@
            }),
    {
        self.b1 = slice_to_vec(slice_subrange(bytes, 72, 88));
        self.b2 = slice_to_vec(slice_subrange(bytes, 88, 104));
    }

    /// Copies the two blocks wrapping the MAC key L.
    pub fn set_b34(&mut self, bytes: &[u8])
        requires
            bytes@.len() >= 152,
        ensures
            final(self)@ == (ContainerV {
                b3: bytes@.subrange(104, 120),
                b4: bytes@.subrange(120, 136),
                ..old(self)@
            }),
    {
        self.b3 = slice_to_vec(slice_subrange(bytes, 104, 120));
        self.b4 = slice_to_vec(slice_subrange(bytes, 120, 136));
    }

    /// Copies the CBC initial value.
    pub fn set_iv(&mut self, bytes: &[u8])
        requires
            bytes@.len() >= 152,
        ensures
            final(self)@ == (ContainerV { iv: bytes@.subrange(136, 152), ..old(self)@ }),
    {
        self.iv = slice_to_vec(slice_subrange(bytes, 136, 152));
    }

    /// Copies the encrypted body, from the fixed key block to the sentinel.
    pub fn set_db(&mut self, bytes: &[u8])
        requires
            152 <= old(self)@.db_end <= bytes@.len(),
        ensures
            final(self)@ == (ContainerV {
                enc_db: bytes@.subrange(152, old(self)@.db_end),
                ..old(self)@
            }),
    {
        self.enc_db = slice_to_vec(slice_subrange(bytes, 152, self.db_end));
    }

    /// Copies the 32-byte MAC tag that follows the sentinel.
    pub fn set_hmac(&mut self, bytes: &[u8])
        requires
            0 <= old(self)@.db_end,
            old(self)@.db_end + 48 <= bytes@.len(),
        ensures
            final(self)@ == (ContainerV {
                mac: bytes@.subrange(old(self)@.db_end + 16, old(self)@.db_end + 48),
                ..old(self)@
            }),
    {
        let n = bytes.len();
        proof {
            assert(self.db_end + 48 <= n);
        }
        let start = self.db_end + 16;
        self.hmac = slice_to_vec(slice_subrange(bytes, start, start + 32));
    }

    /// Validates the layout and slices every container field out of the
    /// file bytes.  On error the container is left as it was.
    pub fn load(&mut self, bytes: &[u8]) -> (r: Result<(), PwSafeError>)
        ensures
            match r {
                Ok(_) => scan_container(bytes@) is Ok && final(self)@ == loaded_container(bytes@)
                    && final(self).wf(),
                Err(e) => scan_container(bytes@) == Err::<int, PwSafeError>(e) && final(self)@
                    == old(self)@,
            },
    {
        match self.check_format(bytes) {
            Ok(_) => (),
            Err(e) => {
                return Err(e);
            },
        }
        self.set_salt(bytes);
        self.set_iter(bytes);
        self.set_key(bytes);
        self.set_b12(bytes);
        self.set_b34(bytes);
        self.set_db(bytes);
        self.set_iv(bytes);
        self.set_hmac(bytes);
        Ok(())
    }

    /// Stretches the passphrase bytes: the salted SHA-256 followed by
    /// `iter` further SHA-256 rounds.  The passphrase buffer is zeroized
    /// after it has been hashed.
    pub fn get_stretch_key(&self, pw: Vec<u8>) -> (r: Result<Vec<u8>, PwSafeError>)
        ensures
            match r {
                Ok(k) => self@.iter != 0 && k@ == stretch_key_spec(
                    pw@,
                    self@.salt,
                    self@.iter as nat,
                ) && k@.len() == 32,
                Err(e) => self@.iter == 0 && e == PwSafeError::IterationsNotInitialized,
            },
    {
        if self.iter == 0 {
            return Err(PwSafeError::IterationsNotInitialized);
        }
        let ghost pw0 = pw@;
        let mut input = pw;
        let n = self.salt.len();
        for i in 0..n
            invariant
                n == self@.salt.len(),
                input@ == pw0 + self@.salt.take(i as int),
        {
            input.push(self.salt[i]);
            proof {
                assert(pw0 + self@.salt.take(i as int) + seq![self@.salt[i as int]] =~= pw0
                    + self@.salt.take(i + 1));
            }
        }
        proof {
            assert(self@.salt.take(n as int) =~= self@.salt);
        }
        let mut r = sha256_digest(&input);
        let m = input.len();
        for i in 0..m
            invariant
                input@.len() == m,
        {
            input.set(i, 0);
        }
        let iters = self.iter;
        let mut i: u32 = 0;
        while i < iters
            invariant
                i <= iters,
                iters == self@.iter,
                r@ == stretch_key_spec(pw0, self@.salt, i as nat),
                r@.len() == 32,
            decreases iters - i,
        {
            r = sha256_digest(&r);
            i = i + 1;
        }
        Ok(r)
    }

    /// Whether the passphrase bytes reproduce the stored stretched-key
    /// hash; the sole acceptance test for a passphrase.
    pub fn check_key(&self, pw: Vec<u8>) -> (r: Result<bool, PwSafeError>)
        ensures
            match r {
                Ok(b) => self@.iter != 0 && b == key_matches(
                    pw@,
                    self@.salt,
                    self@.iter as nat,
                    self@.key_hash,
                ),
                Err(e) => self@.iter == 0 && e == PwSafeError::IterationsNotInitialized,
            },
    {
        let k = match self.get_stretch_key(pw) {
            Ok(k) => k,
            Err(e) => {
                return Err(e);
            },
        };
        let h = sha256_digest(&k);
        Ok(bytes_eq(&h, &self.stretch_key))
    }

    /// Unwraps the 256-bit data key K from blocks B1 and B2.
    pub fn load_k(&self, pw: Vec<u8>) -> (r: Result<Vec<u8>, PwSafeError>)
        requires
            self.wf(),
        ensures
            match r {
                Ok(k) => self@.iter != 0 && k@ == unwrap_key_spec(
                    stretch_key_spec(pw@, self@.salt, self@.iter as nat),
                    self@.b1,
                    self@.b2,
                ) && k@.len() == 32 && k@.subrange(0, 16) == twofish_decrypt256(
                    stretch_key_spec(pw@, self@.salt, self@.iter as nat),
                    self@.b1,
                ) && k@.subrange(16, 32) == twofish_decrypt256(
                    stretch_key_spec(pw@, self@.salt, self@.iter as nat),
                    self@.b2,
                ),
                Err(e) => self@.iter == 0 && e == PwSafeError::IterationsNotInitialized,
            },
    {
        let key = match self.get_stretch_key(pw) {
            Ok(k) => k,
            Err(e) => {
                return Err(e);
            },
        };
        let mut out = twofish_decrypt_block(&key, &self.b1);
        let second = twofish_decrypt_block(&key, &self.b2);
        let ghost first_half = out@;
        append_bytes(&mut out, &second);
        proof {
            assert(out@.subrange(0, 16) =~= first_half);
            assert(out@.subrange(16, 32) =~= second@);
        }
        Ok(out)
    }

    /// Unwraps the 256-bit MAC key L from blocks B3 and B4.
    pub fn load_l(&self, pw: Vec<u8>) -> (r: Result<Vec<u8>, PwSafeError>)
        requires
            self.wf(),
        ensures
            match r {
                Ok(k) => self@.iter != 0 && k@ == unwrap_key_spec(
                    stretch_key_spec(pw@, self@.salt, self@.iter as nat),
                    self@.b3,
                    self@.b4,
                ) && k@.len() == 32 && k@.subrange(0, 16) == twofish_decrypt256(
                    stretch_key_spec(pw@, self@.salt, self@.iter as nat),
                    self@.b3,
                ) && k@.subrange(16, 32) == twofish_decrypt256(
                    stretch_key_spec(pw@, self@.salt, self@.iter as nat),
                    self@.b4,
                ),
                Err(e) => self@.iter == 0 && e == PwSafeError::IterationsNotInitialized,
            },
    {
        let key = match self.get_stretch_key(pw) {
            Ok(k) => k,
            Err(e) => {
                return Err(e);
            },
        };
        let mut out = twofish_decrypt_block(&key, &self.b3);
        let second = twofish_decrypt_block(&key, &self.b4);
        let ghost first_half = out@;
        append_bytes(&mut out, &second);
        proof {
            assert(out@.subrange(0, 16) =~= first_half);
            assert(out@.subrange(16, 32) =~= second@);
        }
        Ok(out)
    }

    /// Verifies the passphrase and CBC-decrypts the body under the
    /// unwrapped data key K.  The passphrase is trimmed of surrounding
    /// whitespace before use.
    pub fn unlock(&self, pw: String) -> (r: Result<Vec<u8>, PwSafeError>)
        requires
            self.wf(),
        ensures
            match r {
                Ok(plain) => self@.iter != 0 && key_matches(
                    pass_bytes(pw@),
                    self@.salt,
                    self@.iter as nat,
                    self@.key_hash,
                ) && plain@ == plaintext_spec(self@, pass_bytes(pw@)) && plain@.len() == 16 * (
                self@.enc_db.len() / 16) && plain@.len() <= self@.enc_db.len(),
                Err(e) => (e == PwSafeError::IterationsNotInitialized && self@.iter == 0) || (e
                    == PwSafeError::InvalidKey && self@.iter != 0 && !key_matches(
                    pass_bytes(pw@),
                    self@.salt,
                    self@.iter as nat,
                    self@.key_hash,
                )),
            },
    {
        let phrase = trim_str(pw.as_str());
        let pb: &[u8] = phrase.as_bytes();
        match self.check_key(slice_to_vec(pb)) {
            Ok(true) => (),
            Ok(false) => {
                return Err(PwSafeError::InvalidKey);
            },
            Err(e) => {
                return Err(e);
            },
        }
        let k = match self.load_k(slice_to_vec(pb)) {
            Ok(k) => k,
            Err(e) => {
                proof {
                    assert(false);
                }
                return Err(e);
            },
        };
        let ghost total = self@.enc_db;
        let mut result: Vec<u8> = Vec::new();
        let mut prev: Vec<u8> = slice_to_vec(self.iv.as_slice());
        let nblocks = self.enc_db.len() / 16;
        proof {
            assert(total.skip(0) =~= total);
        }
        for i in 0..nblocks
            invariant
                self.wf(),
                nblocks == total.len() / 16,
                total == self@.enc_db,
                total.len() <= usize::MAX,
                k@.len() == 32,
                k@ == data_key_spec(self@, pass_bytes(pw@)),
                prev@.len() == 16,
                result@.len() == 16 * i,
                cbc_decrypt_spec(k@, self@.iv, total) == result@ + cbc_decrypt_spec(
                    k@,
                    prev@,
                    total.skip(16 * i),
                ),
        {
            proof {
                assert(16 * (i as int) + 16 <= total.len()) by (nonlinear_arith)
                    requires
                        (i as int) < total.len() / 16,
                        total.len() >= 0,
                ;
            }
            let block = slice_to_vec(slice_subrange(self.enc_db.as_slice(), 16 * i, 16 * i + 16));
            let mut plain = twofish_decrypt_block(&k, &block);
            _xor_block(&mut plain, &prev);
            proof {
                let rest = total.skip(16 * i);
                assert(rest.take(16) =~= block@);
                assert(rest.skip(16) =~= total.skip(16 * (i + 1)));
                assert(cbc_decrypt_spec(k@, prev@, rest) == xor_bytes(
                    twofish_decrypt256(k@, block@),
                    prev@,
                ) + cbc_decrypt_spec(k@, block@, total.skip(16 * (i + 1))));
            }
            prev = block;
            append_bytes(&mut result, &plain);
        }
        proof {
            assert(total.skip(16 * (nblocks as int)).len() < 16) by (nonlinear_arith)
                requires
                    nblocks == total.len() / 16,
                    total.len() >= 0,
                    total.skip(16 * (nblocks as int)).len() == total.len() - 16 * (nblocks as int),
            ;
            assert(result@ + cbc_decrypt_spec(k@, prev@, total.skip(16 * (nblocks as int)))
                =~= result@);
            assert(16 * (nblocks as int) <= total.len()) by (nonlinear_arith)
                requires
                    nblocks == total.len() / 16,
                    total.len() >= 0,
            ;
        }
        Ok(result)
    }

    /// Runs the full pre-parse pipeline: unwraps the MAC key L, decrypts
    /// the body, and hands both on together with the stored tag.
    pub fn prepare_db(&self, pw: String) -> (r: Result<PwSafeTransition, PwSafeError>)
        requires
            self.wf(),
        ensures
            match r {
                Ok(t) => self@.iter != 0 && key_matches(
                    pass_bytes(pw@),
                    self@.salt,
                    self@.iter as nat,
                    self@.key_hash,
                ) && t.plt@ == plaintext_spec(self@, pass_bytes(pw@)) && t.plt@.len() == 16 * (
                self@.enc_db.len() / 16) && t.plt@.len() <= self@.enc_db.len() && t.l@
                    == mac_key_spec(
                    self@,
                    pass_bytes(pw@),
                ) && t.l@.len() == 32 && t.sig@ == self@.mac,
                Err(e) => (e == PwSafeError::IterationsNotInitialized && self@.iter == 0) || (e
                    == PwSafeError::InvalidKey && self@.iter != 0 && !key_matches(
                    pass_bytes(pw@),
                    self@.salt,
                    self@.iter as nat,
                    self@.key_hash,
                )),
            },
    {
        let phrase = trim_str(pw.as_str());
        let pb: &[u8] = phrase.as_bytes();
        let l = match self.load_l(slice_to_vec(pb)) {
            Ok(l) => l,
            Err(e) => {
                return Err(e);
            },
        };
        let plt = match self.unlock(pw) {
            Ok(p) => p,
            Err(e) => {
                return Err(e);
            },
        };
        let sig = slice_to_vec(self.hmac.as_slice());
        Ok(PwSafeTransition { plt, l, sig })
    }
}

} // verus!
