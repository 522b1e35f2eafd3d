//! A read-only parser and decryptor for Password Safe v3 (PWS3) database
//! files.  Given the raw bytes of a safe and a passphrase, the library
//! validates the container layout, derives the encryption and authentication
//! keys from the passphrase, decrypts the ciphertext body, parses the
//! plaintext into a header block and a sequence of records, and verifies the
//! authentication tag.
//!
//! File and terminal I/O live outside this crate; every function here works
//! on in-memory bytes and is verified against the contracts it states.
use vstd::prelude::*;

pub mod pwserrors;
pub mod util;
pub mod crypt;
pub mod pwsfile;
pub mod header;
pub mod field;
pub mod record;
pub mod pwsdb;

use crate::pwserrors::PwSafeError;
use crate::pwsfile::{
    PwSafeEncrypted, ContainerV, container_wf, scan_container, loaded_container, pass_bytes,
    plaintext_spec, mac_key_spec,
};
use crate::crypt::key_matches;
use crate::pwsdb::{PwDb, PwDbV, parse_db_spec, scan_fits};
use crate::record::{DbRecord, first_str};
use crate::field::RecordFieldV;

verus! {

/// The database value an unlock of container `c` with `phrase` must
/// produce: reject a zero iteration count, then a wrong passphrase, then
/// decrypt, parse and authenticate.
pub open spec fn unlock_spec(c: ContainerV, phrase: Seq<char>) -> Result<PwDbV, PwSafeError> {
    let pwb = pass_bytes(phrase);
    if c.iter == 0 {
        Err(PwSafeError::IterationsNotInitialized)
    } else if !key_matches(pwb, c.salt, c.iter as nat, c.key_hash) {
        Err(PwSafeError::InvalidKey)
    } else {
        parse_db_spec(plaintext_spec(c, pwb), mac_key_spec(c, pwb), c.mac)
    }
}

/// Passphrase gate law: with a zero iteration count no key can be
/// stretched; with a positive one, an unlock proceeds past key
/// verification exactly when the SHA-256 of the derived stretched key
/// equals the stored hash — there is no other acceptance path.
pub proof fn lemma_unlock_key_gate(c: ContainerV, phrase: Seq<char>)
    ensures
        c.iter == 0 ==> unlock_spec(c, phrase) == Err::<PwDbV, PwSafeError>(
            PwSafeError::IterationsNotInitialized,
        ),
        c.iter != 0 && !key_matches(pass_bytes(phrase), c.salt, c.iter as nat, c.key_hash)
            ==> unlock_spec(c, phrase) == Err::<PwDbV, PwSafeError>(PwSafeError::InvalidKey),
        c.iter != 0 && key_matches(pass_bytes(phrase), c.salt, c.iter as nat, c.key_hash)
            ==> unlock_spec(c, phrase) == parse_db_spec(
            plaintext_spec(c, pass_bytes(phrase)),
            mac_key_spec(c, pass_bytes(phrase)),
            c.mac,
        ),
{
}

/// Idempotence law: two unlocks of the same container with the same
/// passphrase are bound to the same value, so they yield structurally
/// identical databases or identical errors.
pub proof fn lemma_unlock_idempotent(
    c: ContainerV,
    phrase: Seq<char>,
    r1: Result<PwDbV, PwSafeError>,
    r2: Result<PwDbV, PwSafeError>,
)
    requires
        r1 == unlock_spec(c, phrase),
        r2 == unlock_spec(c, phrase),
    ensures
        r1 == r2,
{
}

/// The distinct `Group` values of `records` from index `i` on, appended in
/// first-occurrence order to those already in `acc`.
pub open spec fn distinct_groups(
    records: Seq<Seq<RecordFieldV>>,
    i: int,
    acc: Seq<Seq<char>>,
) -> Seq<Seq<char>>
    decreases crate::pwsdb::clamp0(records.len() - i),
{
    if i < 0 || i >= records.len() {
        acc
    } else {
        match first_str(records[i], 2) {
            None => distinct_groups(records, i + 1, acc),
            Some(g) => if acc.contains(g) {
                distinct_groups(records, i + 1, acc)
            } else {
                distinct_groups(records, i + 1, acc.push(g))
            },
        }
    }
}

/// The records whose first `Group` field equals `g`, in file order.
pub open spec fn matching_records(records: Seq<Seq<RecordFieldV>>, g: Seq<char>) -> Seq<
    Seq<RecordFieldV>,
>
    decreases records.len(),
{
    if records.len() == 0 {
        Seq::empty()
    } else {
        (if first_str(records[0], 2) == Some(g) {
            seq![records[0]]
        } else {
            Seq::empty()
        }) + matching_records(records.drop_first(), g)
    }
}

/// The view of an open safe: its container and its (possibly still empty)
/// decrypted database.
pub ghost struct PwFileV {
    pub db: PwDbV,
    pub s: ContainerV,
    pub is_open: bool,
    pub is_valid: bool,
}

/// A PWS3 safe held in memory: the sliced encrypted container, and after a
/// successful unlock the decrypted database.
pub struct PwFile {
    /// The decrypted database; empty until `unlock` succeeds.
    pub db: PwDb,
    s: PwSafeEncrypted,
    /// Whether the container was loaded.
    pub is_open: bool,
    /// Whether the container layout was valid.
    pub is_valid: bool,
}

impl View for PwFile {
    type V = PwFileV;

    closed spec fn view(&self) -> PwFileV {
        PwFileV { db: self.db@, s: self.s@, is_open: self.is_open, is_valid: self.is_valid }
    }
}

impl PwFile {
    /// Validates and slices an in-memory PWS3 file; no cryptography is
    /// performed yet.
    pub fn from_bytes(buff: &[u8]) -> (r: Result<PwFile, PwSafeError>)
        ensures
            match r {
                Ok(f) => scan_container(buff@) is Ok && f@.s == loaded_container(buff@)
                    && container_wf(f@.s) && f@.s.enc_db.len() <= buff@.len()
                    && f@.db.header.len() == 0 && f@.db.records.len() == 0 && f@.is_open
                    && f@.is_valid,
                Err(e) => scan_container(buff@) == Err::<int, PwSafeError>(e),
            },
    {
        let mut safe = PwSafeEncrypted::new();
        match safe.check_format(buff) {
            Ok(_) => (),
            Err(e) => {
                return Err(e);
            },
        }
        match safe.load(buff) {
            Ok(_) => (),
            Err(e) => {
                return Err(e);
            },
        }
        Ok(PwFile { db: PwDb::new(), s: safe, is_open: true, is_valid: true })
    }

    /// Decrypts the container under `phrase`, parses the plaintext and
    /// verifies the authentication tag; only then is the database stored.
    /// On any error the safe is unchanged.
    pub fn unlock(&mut self, phrase: &str) -> (r: Result<(), PwSafeError>)
        requires
            container_wf(old(self)@.s),
            scan_fits(old(self)@.s.enc_db.len() as int),
        ensures
            final(self)@.s == old(self)@.s,
            final(self)@.is_open == old(self)@.is_open,
            final(self)@.is_valid == old(self)@.is_valid,
            match r {
                Ok(_) => unlock_spec(old(self)@.s, phrase@) == Ok::<PwDbV, PwSafeError>(
                    final(self)@.db,
                ),
                Err(e) => unlock_spec(old(self)@.s, phrase@) == Err::<PwDbV, PwSafeError>(e)
                    && final(self)@.db == old(self)@.db,
            },
    {
        let trans = match self.s.prepare_db(phrase.to_owned()) {
            Ok(t) => t,
            Err(e) => {
                return Err(e);
            },
        };
        let db = match PwDb::load(&trans.plt, &trans.l, &trans.sig) {
            Ok(db) => db,
            Err(e) => {
                return Err(e);
            },
        };
        self.db = db;
        Ok(())
    }

    /// The records of the database, in file order.
    pub fn iter(&self) -> (r: &Vec<DbRecord>)
        ensures
            r.deep_view() == self@.db.records,
    {
        &self.db.records
    }

    /// The distinct `Group` values across all records, in first-occurrence
    /// order.
    pub fn groups(&self) -> (r: Vec<String>)
        ensures
            r.deep_view() == distinct_groups(self@.db.records, 0, Seq::empty()),
    {
        let mut out: Vec<String> = Vec::new();
        let n = self.db.records.len();
        let ghost recs = self@.db.records;
        proof {
            assert(out.deep_view() =~= Seq::<Seq<char>>::empty());
        }
        for i in 0..n
            invariant
                n == self.db.records@.len(),
                recs == self@.db.records,
                distinct_groups(recs, 0, Seq::empty()) == distinct_groups(
                    recs,
                    i as int,
                    out.deep_view(),
                ),
        {
            proof {
                assert(recs[i as int] == self.db.records@[i as int].deep_view());
            }
            match self.db.records[i].group() {
                None => (),
                Some(g) => {
                    if !contains_string(&out, &g) {
                        let ghost dv0 = out.deep_view();
                        out.push(g);
                        proof {
                            assert(out.deep_view() =~= dv0.push(g@));
                        }
                    }
                },
            }
        }
        out
    }

    /// The records whose `Group` field equals `group`, in file order.
    pub fn by_broup<'a>(&'a self, group: String) -> (r: Vec<&'a DbRecord>)
        ensures
            r.deep_view() == matching_records(self@.db.records, group@),
    {
        let mut out: Vec<&DbRecord> = Vec::new();
        let n = self.db.records.len();
        let ghost recs = self@.db.records;
        proof {
            assert(recs.skip(0) =~= recs);
        }
        for i in 0..n
            invariant
                n == self.db.records@.len(),
                recs == self@.db.records,
                matching_records(recs, group@) == out.deep_view() + matching_records(
                    recs.skip(i as int),
                    group@,
                ),
        {
            proof {
                assert(recs.skip(i as int)[0] == recs[i as int]);
                assert(recs.skip(i as int).drop_first() =~= recs.skip(i as int + 1));
                assert(recs[i as int] == self.db.records@[i as int].deep_view());
            }
            let rec = &self.db.records[i];
            let ghost dv0 = out.deep_view();
            let matched = match rec.group() {
                Some(g) => g.eq(&group),
                None => false,
            };
            if matched {
                out.push(rec);
                proof {
                    assert(out.deep_view() =~= dv0.push(rec.deep_view()));
                    assert(dv0.push(rec.deep_view()) =~= dv0 + seq![recs[i as int]]);
                    assert(dv0 + (seq![recs[i as int]] + matching_records(
                        recs.skip(i as int + 1),
                        group@,
                    )) =~= (dv0 + seq![recs[i as int]]) + matching_records(
                        recs.skip(i as int + 1),
                        group@,
                    ));
                }
            } else {
                proof {
                    assert(Seq::<Seq<RecordFieldV>>::empty() + matching_records(
                        recs.skip(i as int + 1),
                        group@,
                    ) =~= matching_records(recs.skip(i as int + 1), group@));
                }
            }
        }
        proof {
            assert(recs.skip(n as int) =~= Seq::<Seq<RecordFieldV>>::empty());
            assert(out.deep_view() + matching_records(Seq::empty(), group@) =~= out.deep_view());
        }
        out
    }
}

/// Whether `v` already holds a string equal to `s`.
fn contains_string(v: &Vec<String>, s: &String) -> (r: bool)
    ensures
        r == v.deep_view().contains(s@),
{
    let n = v.len();
    for i in 0..n
        invariant
            n == v@.len(),
            forall|j: int| 0 <= j < i ==> v.deep_view()[j] != s@,
    {
        if v[i].eq(s) {
            proof {
                assert(v.deep_view()[i as int] == s@);
            }
            return true;
        }
    }
    proof {
        assert(v.deep_view().len() == n);
        if v.deep_view().contains(s@) {
            let j = choose|j: int| 0 <= j < v.deep_view().len() && v.deep_view()[j] == s@;
            assert(false);
        }
    }
    false
}

} // verus!
