//! The block-aligned TLV parser: one scan routine shape for the header and
//! for each record, the centralized padding rule, the MAC feed, and the
//! assembly of the final database value.
use vstd::prelude::*;
use vstd::slice::{slice_index_get, slice_subrange};
use vstd::arithmetic::div_mod::{lemma_fundamental_div_mod, lemma_mod_bound, lemma_mod_multiples_vanish};
use crate::pwserrors::PwSafeError;
use crate::util::{le32, bytes_as_u32};
use crate::crypt::{hmac_sha256_of, hmac_sha256_tag, bytes_eq};
use crate::header::{Header, HeaderV, HeaderField, decode_header_field};
use crate::field::{RecordField, RecordFieldV, decode_record_field};
use crate::record::DbRecord;

verus! {

/// `x`, floored at zero; used as a termination measure.
pub open spec fn clamp0(x: int) -> int {
    if x >= 0 {
        x
    } else {
        0
    }
}

/// The post-padding cursor for an element whose payload starts at `ps` and
/// holds `l` bytes: elements occupy whole 16-byte blocks, with a minimum
/// footprint of one block, and an element already ending on a block
/// boundary needs no adjustment.
pub open spec fn pad_end(ps: int, l: int) -> int {
    let e = ps + l;
    if e % 16 == 0 {
        e
    } else if l == 11 {
        e
    } else if l < 11 {
        ps + 11
    } else {
        (e / 16 + 1) * 16
    }
}

/// The padded cursor never moves backwards past the payload start, and
/// stays within one block of the payload end.
pub proof fn lemma_pad_end_bounds(ps: int, l: int)
    requires
        ps >= 0,
        l >= 0,
    ensures
        pad_end(ps, l) >= ps,
        pad_end(ps, l) <= ps + l + 16,
{
    let e = ps + l;
    if e % 16 == 0 || l <= 11 {
    } else {
        lemma_fundamental_div_mod(e, 16);
        lemma_mod_bound(e, 16);
    }
}

/// Padding law: for an element whose start `ps - 5` lies on a block
/// boundary, the post-padding cursor is the element start plus its
/// footprint, the payload length plus the 5-byte prefix rounded up to
/// whole 16-byte blocks with a one-block minimum.
pub proof fn lemma_padding_law(ps: int, l: int)
    requires
        ps >= 5,
        l >= 0,
        (ps - 5) % 16 == 0,
    ensures
        pad_end(ps, l) == ps - 5 + (if 5 + l <= 16 {
            16int
        } else {
            ((5 + l + 15) / 16) * 16
        }),
{
    let s = ps - 5;
    let e = ps + l;
    lemma_fundamental_div_mod(s, 16);
    lemma_mod_bound(s, 16);
    let q = s / 16;
    assert(s == 16 * q);
    if 5 + l <= 16 {
        // footprint one block: short elements pad up to ps + 11, and a
        // length of exactly 11 already ends on the boundary
        assert((s + 16) % 16 == 0) by {
            lemma_mod_multiples_vanish(q + 1, 0, 16);
        }
        if l == 11 {
        } else {
            assert(e % 16 != 0) by {
                if e % 16 == 0 {
                    lemma_fundamental_div_mod(e, 16);
                    lemma_mod_bound(e, 16);
                    let r = e / 16;
                    assert(16 * r == 16 * q + 5 + l);
                    assert(16 * (r - q) == 5 + l) by (nonlinear_arith)
                        requires
                            16 * r == 16 * q + 5 + l,
                    ;
                }
            }
        }
    } else {
        // footprint more than one block: round the absolute end up
        let f = ((5 + l + 15) / 16) * 16;
        lemma_fundamental_div_mod(5 + l + 15, 16);
        lemma_mod_bound(5 + l + 15, 16);
        let m = (5 + l + 15) % 16;
        let d = (5 + l + 15) / 16;
        assert(5 + l + 15 == 16 * d + m);
        if e % 16 == 0 {
            // the element ends exactly on a boundary: e == s + 5 + l, so
            // 5 + l is a multiple of 16 and rounding changes nothing
            lemma_fundamental_div_mod(e, 16);
            lemma_mod_bound(e, 16);
            let r = e / 16;
            assert(16 * (r - q) == 5 + l) by (nonlinear_arith)
                requires
                    16 * r == e,
                    e == 16 * q + 5 + l,
            ;
            assert(16 * d == 16 * (r - q) + 15 - m);
            assert(16 * (d - (r - q)) == 15 - m) by (nonlinear_arith)
                requires
                    16 * d == 16 * (r - q) + 15 - m,
            ;
            assert(d == r - q) by (nonlinear_arith)
                requires
                    16 * (d - (r - q)) == 15 - m,
                    0 <= m < 16,
            ;
            assert(f == 16 * d) by (nonlinear_arith)
                requires
                    f == ((5 + l + 15) / 16) * 16,
                    d == (5 + l + 15) / 16,
            ;
            assert(s + f == e) by (nonlinear_arith)
                requires
                    f == 16 * d,
                    d == r - q,
                    16 * r == e,
                    s == 16 * q,
            ;
        } else {
            // the rounded-up absolute end equals start plus rounded
            // footprint
            lemma_fundamental_div_mod(e, 16);
            lemma_mod_bound(e, 16);
            let r = e / 16;
            let em = e % 16;
            assert(e == 16 * r + em && 0 < em < 16);
            // e/16 + 1 blocks from zero equals q blocks plus the footprint
            // blocks: 16*(r+1) == s + 16*(r+1-q), and footprint blocks
            // r+1-q == d
            assert(16 * d + m == 16 * (r - q) + em + 15) by (nonlinear_arith)
                requires
                    5 + l + 15 == 16 * d + m,
                    e == 16 * r + em,
                    e == 16 * q + 5 + l,
                    s == 16 * q,
            ;
            assert(16 * (d - (r - q)) == em + 15 - m) by (nonlinear_arith)
                requires
                    16 * d + m == 16 * (r - q) + em + 15,
            ;
            assert(d - (r - q) == 1) by (nonlinear_arith)
                requires
                    16 * (d - (r - q)) == em + 15 - m,
                    0 <= m < 16,
                    0 < em < 16,
            ;
            assert((e / 16 + 1) * 16 == s + f) by (nonlinear_arith)
                requires
                    f == 16 * d,
                    d == r - q + 1,
                    s == 16 * q,
                    r == e / 16,
            ;
            assert(f == 16 * d) by (nonlinear_arith)
                requires
                    f == ((5 + l + 15) / 16) * 16,
                    d == (5 + l + 15) / 16,
            ;
        }
    }
}

/// One raw TLV element: its type byte and its payload bytes.
pub ghost struct RawElem {
    pub t: u8,
    pub payload: Seq<u8>,
}

/// What one TLV scan of `d` yields: the raw elements up to (and not
/// including) the end-of-entry sentinel, and the final cursor.
pub ghost struct ScanResult {
    pub elems: Seq<RawElem>,
    pub end: int,
}

/// One TLV scan of `d` from cursor `start`.  The scan stops short when
/// fewer than 12 bytes remain (returning the previous element's end
/// `prev_end`), when a payload would run past the buffer (returning that
/// unpadded end), or at an end-of-entry sentinel (returning its padded
/// end, without emitting it).
pub open spec fn scan_from(d: Seq<u8>, start: int, prev_end: int) -> ScanResult
    recommends
        0 <= start,
    decreases clamp0(d.len() - start),
    via scan_from_decreases
{
    if start < 0 || start + 11 >= d.len() {
        ScanResult { elems: seq![], end: prev_end }
    } else {
        let l = le32(d.subrange(start, start + 4));
        let t = d[start + 4];
        let ps = start + 5;
        let pe = ps + l;
        if pe >= d.len() {
            ScanResult { elems: seq![], end: pe }
        } else {
            let ne = pad_end(ps, l);
            if t == 255 {
                ScanResult { elems: seq![], end: ne }
            } else {
                let rest = scan_from(d, ne, ne);
                ScanResult {
                    elems: seq![RawElem { t: t, payload: d.subrange(ps, pe) }] + rest.elems,
                    end: rest.end,
                }
            }
        }
    }
}

#[via_fn]
proof fn scan_from_decreases(d: Seq<u8>, start: int, prev_end: int) {
    if 0 <= start && start + 11 < d.len() {
        let l = le32(d.subrange(start, start + 4));
        lemma_pad_end_bounds(start + 5, l);
    }
}

/// A scan's final cursor never falls below the initial element end of 4.
pub proof fn lemma_scan_end_ge(d: Seq<u8>, start: int, prev_end: int)
    requires
        0 <= start,
        4 <= prev_end,
    ensures
        scan_from(d, start, prev_end).end >= 4,
    decreases clamp0(d.len() - start),
{
    if start + 11 >= d.len() {
    } else {
        let l = le32(d.subrange(start, start + 4));
        let ps = start + 5;
        let pe = ps + l;
        if pe >= d.len() {
        } else {
            let ne = pad_end(ps, l);
            lemma_pad_end_bounds(ps, l);
            if d[start + 4] == 255 {
            } else {
                lemma_scan_end_ge(d, ne, ne);
            }
        }
    }
}

/// A scan's final cursor stays within a length field's reach of the
/// buffer: at most the buffer length plus one claimed payload and change.
pub proof fn lemma_scan_end_upper(d: Seq<u8>, start: int, prev_end: int)
    requires
        0 <= start,
        0 <= prev_end <= d.len() + 21,
    ensures
        scan_from(d, start, prev_end).end <= d.len() + 21 + 0xFFFF_FFFF,
    decreases clamp0(d.len() - start),
{
    if start + 11 >= d.len() {
    } else {
        let l = le32(d.subrange(start, start + 4));
        let ps = start + 5;
        let pe = ps + l;
        if pe >= d.len() {
        } else {
            lemma_pad_end_bounds(ps, l);
            let ne = pad_end(ps, l);
            if d[start + 4] == 255 {
            } else {
                lemma_scan_end_upper(d, ne, ne);
            }
        }
    }
}

/// The in-order concatenation of the payloads of `elems`: exactly what the
/// MAC is fed for these elements.
pub open spec fn payload_concat(elems: Seq<RawElem>) -> Seq<u8>
    decreases elems.len(),
{
    if elems.len() == 0 {
        Seq::empty()
    } else {
        elems[0].payload + payload_concat(elems.drop_first())
    }
}

/// Appending one element extends the MAC feed by exactly its payload.
pub proof fn lemma_payload_concat_push(elems: Seq<RawElem>, e: RawElem)
    ensures
        payload_concat(elems.push(e)) == payload_concat(elems) + e.payload,
    decreases elems.len(),
{
    if elems.len() == 0 {
        assert(elems.push(e).drop_first() =~= Seq::<RawElem>::empty());
        assert(e.payload + payload_concat(Seq::empty()) =~= e.payload);
        assert(payload_concat(elems) + e.payload =~= e.payload);
    } else {
        assert(elems.push(e).drop_first() =~= elems.drop_first().push(e));
        lemma_payload_concat_push(elems.drop_first(), e);
        assert(elems[0].payload + (payload_concat(elems.drop_first()) + e.payload) =~= (
        elems[0].payload + payload_concat(elems.drop_first())) + e.payload);
    }
}

/// How the raw header elements decode: `None` exactly when some string
/// field is not UTF-8, otherwise the decoded fields with their payload
/// lengths, in order.
pub open spec fn decode_headers(elems: Seq<RawElem>) -> Option<Seq<HeaderV>>
    decreases elems.len(),
{
    if elems.len() == 0 {
        Some(seq![])
    } else {
        match decode_header_field(elems[0].t, elems[0].payload) {
            None => None,
            Some(f) => match decode_headers(elems.drop_first()) {
                None => None,
                Some(rest) => Some(
                    seq![HeaderV { field: f, len: elems[0].payload.len() as int }] + rest,
                ),
            },
        }
    }
}

/// Decoding distributes over concatenation of element lists.
pub proof fn lemma_decode_headers_concat(a: Seq<RawElem>, b: Seq<RawElem>)
    ensures
        decode_headers(a + b) == (match decode_headers(a) {
            None => None::<Seq<HeaderV>>,
            Some(x) => match decode_headers(b) {
                None => None,
                Some(y) => Some(x + y),
            },
        }),
    decreases a.len(),
{
    if a.len() == 0 {
        assert(a + b =~= b);
        match decode_headers(b) {
            None => {},
            Some(y) => {
                assert(Seq::<HeaderV>::empty() + y =~= y);
            },
        }
    } else {
        assert((a + b).len() > 0);
        assert((a + b)[0] == a[0]);
        assert((a + b).drop_first() =~= a.drop_first() + b);
        lemma_decode_headers_concat(a.drop_first(), b);
        match decode_header_field(a[0].t, a[0].payload) {
            None => {},
            Some(f) => {
                let hv = HeaderV { field: f, len: a[0].payload.len() as int };
                match decode_headers(a.drop_first()) {
                    None => {},
                    Some(x) => {
                        match decode_headers(b) {
                            None => {},
                            Some(y) => {
                                assert(seq![hv] + (x + y) =~= (seq![hv] + x) + y);
                            },
                        }
                    },
                }
            },
        }
    }
}

/// How the raw record elements decode: `None` exactly when some string
/// field is not UTF-8, otherwise the decoded fields in order.
pub open spec fn decode_record_fields(elems: Seq<RawElem>) -> Option<Seq<RecordFieldV>>
    decreases elems.len(),
{
    if elems.len() == 0 {
        Some(seq![])
    } else {
        match decode_record_field(elems[0].t, elems[0].payload) {
            None => None,
            Some(f) => match decode_record_fields(elems.drop_first()) {
                None => None,
                Some(rest) => Some(seq![f] + rest),
            },
        }
    }
}

/// Decoding distributes over concatenation of element lists.
pub proof fn lemma_decode_record_fields_concat(a: Seq<RawElem>, b: Seq<RawElem>)
    ensures
        decode_record_fields(a + b) == (match decode_record_fields(a) {
            None => None::<Seq<RecordFieldV>>,
            Some(x) => match decode_record_fields(b) {
                None => None,
                Some(y) => Some(x + y),
            },
        }),
    decreases a.len(),
{
    if a.len() == 0 {
        assert(a + b =~= b);
        match decode_record_fields(b) {
            None => {},
            Some(y) => {
                assert(Seq::<RecordFieldV>::empty() + y =~= y);
            },
        }
    } else {
        assert((a + b)[0] == a[0]);
        assert((a + b).drop_first() =~= a.drop_first() + b);
        lemma_decode_record_fields_concat(a.drop_first(), b);
        match decode_record_field(a[0].t, a[0].payload) {
            None => {},
            Some(f) => {
                match decode_record_fields(a.drop_first()) {
                    None => {},
                    Some(x) => {
                        match decode_record_fields(b) {
                            None => {},
                            Some(y) => {
                                assert(seq![f] + (x + y) =~= (seq![f] + x) + y);
                            },
                        }
                    },
                }
            },
        }
    }
}

/// The records parsed from `d` from cursor `offset` on, with the MAC feed
/// their payloads contribute: `None` exactly when some record's string
/// field is not UTF-8.  Each scan consumes one record run; a record with
/// no fields is dropped from the list.
pub open spec fn records_from(d: Seq<u8>, offset: int) -> Option<(Seq<Seq<RecordFieldV>>, Seq<u8>)>
    recommends
        0 <= offset,
    decreases clamp0(d.len() + 1 - offset),
    via records_from_decreases
{
    if offset < 0 || offset > d.len() {
        Some((seq![], Seq::empty()))
    } else {
        let sub = d.subrange(offset, d.len() as int);
        let sr = scan_from(sub, 0, 4);
        match decode_record_fields(sr.elems) {
            None => None,
            Some(fs) => match records_from(d, offset + sr.end) {
                None => None,
                Some((recs, feed)) => Some(
                    (
                        (if fs.len() > 0 {
                            seq![fs] + recs
                        } else {
                            recs
                        }),
                        payload_concat(sr.elems) + feed,
                    ),
                ),
            },
        }
    }
}

#[via_fn]
proof fn records_from_decreases(d: Seq<u8>, offset: int) {
    if 0 <= offset && offset <= d.len() {
        let sub = d.subrange(offset, d.len() as int);
        lemma_scan_end_ge(sub, 0, 4);
    }
}

/// Empty-record law: when the record run at `offset` decodes to zero
/// fields, no record is emitted — the record list equals that of the
/// remaining runs alone, though the run's payloads are still fed to the
/// MAC.
pub proof fn lemma_empty_record_dropped(d: Seq<u8>, offset: int)
    requires
        0 <= offset <= d.len(),
        ({
            let sr = scan_from(d.subrange(offset, d.len() as int), 0, 4);
            decode_record_fields(sr.elems) == Some(Seq::<RecordFieldV>::empty())
        }),
    ensures
        ({
            let sr = scan_from(d.subrange(offset, d.len() as int), 0, 4);
            records_from(d, offset) == (match records_from(d, offset + sr.end) {
                None => None::<(Seq<Seq<RecordFieldV>>, Seq<u8>)>,
                Some((recs, feed)) => Some((recs, payload_concat(sr.elems) + feed)),
            })
        }),
{
}

/// The database parsed from plaintext `plain`, authenticated under the MAC
/// key `l` against the stored tag `sig`: the header run first, then the
/// record runs, with every parsed payload fed to the MAC in order.
pub open spec fn parse_db_spec(plain: Seq<u8>, l: Seq<u8>, sig: Seq<u8>) -> Result<
    PwDbV,
    PwSafeError,
> {
    let hsr = scan_from(plain, 0, 4);
    match decode_headers(hsr.elems) {
        None => Err(PwSafeError::InvalidUtf8InStringField),
        Some(hdr) => match records_from(plain, hsr.end) {
            None => Err(PwSafeError::InvalidUtf8InStringField),
            Some((recs, feed)) => if hmac_sha256_of(l, payload_concat(hsr.elems) + feed) == sig {
                Ok(PwDbV { header: hdr, records: recs })
            } else {
                Err(PwSafeError::InvalidSignature)
            },
        },
    }
}

/// Room the scanner needs above the buffer length so that no cursor
/// computation can overflow a `usize`: a payload length field can claim up
/// to four gigabytes.
pub open spec fn scan_fits(len: int) -> bool {
    0 <= len && len + 0x1_0000_0030 <= usize::MAX
}

/// Advances the cursor past an element's padding: the executable form of
/// `pad_end`.
pub fn advance_padding(ps: usize, l: usize) -> (r: usize)
    requires
        ps + l + 16 <= usize::MAX,
    ensures
        r as int == pad_end(ps as int, l as int),
{
    proof {
        lemma_pad_end_bounds(ps as int, l as int);
    }
    let e = ps + l;
    if e % 16 == 0 {
        e
    } else if l == 11 {
        e
    } else if l < 11 {
        ps + 11
    } else {
        proof {
            lemma_fundamental_div_mod(e as int, 16);
            lemma_mod_bound(e as int, 16);
        }
        (e / 16 + 1) * 16
    }
}

/// The parsed database: header elements and records, in file order.
#[derive(Debug, Clone, PartialEq)]
pub struct PwDb {
    pub header: Vec<Header>,
    pub records: Vec<DbRecord>,
}

/// The mathematical value of a parsed database.
pub ghost struct PwDbV {
    pub header: Seq<HeaderV>,
    pub records: Seq<Seq<RecordFieldV>>,
}

impl View for PwDb {
    type V = PwDbV;

    open spec fn view(&self) -> PwDbV {
        PwDbV { header: self.header.deep_view(), records: self.records.deep_view() }
    }
}

impl PwDb {
    /// A fresh, empty database.
    pub fn new() -> (r: PwDb)
        ensures
            r@.header == Seq::<HeaderV>::empty(),
            r@.records == Seq::<Seq<RecordFieldV>>::empty(),
    {
        let r = PwDb { header: Vec::new(), records: Vec::new() };
        proof {
            assert(r@.header =~= Seq::<HeaderV>::empty());
            assert(r@.records =~= Seq::<Seq<RecordFieldV>>::empty());
        }
        r
    }

    /// Scans one TLV run for the header, feeding every parsed payload to
    /// `mac_feed`; sentinel payloads are not fed.  Returns the final
    /// cursor and the decoded header elements.
    pub fn read_header(header: &[u8], mac_feed: &mut Vec<u8>) -> (r: Result<
        (usize, Vec<Header>),
        PwSafeError,
    >)
        requires
            scan_fits(header@.len() as int),
        ensures
            ({
                let sr = scan_from(header@, 0, 4);
                match r {
                    Ok((end, hs)) => end as int == sr.end && decode_headers(sr.elems) == Some(
                        hs.deep_view(),
                    ) && final(mac_feed)@ == old(mac_feed)@ + payload_concat(sr.elems),
                    Err(e) => e == PwSafeError::InvalidUtf8InStringField && decode_headers(
                        sr.elems,
                    ) is None,
                }
            }),
    {
        let ghost d = header@;
        let ghost sr = scan_from(d, 0, 4);
        let n = header.len();
        let mut start: usize = 0;
        let mut end: usize = 4;
        let mut fields: Vec<Header> = Vec::new();
        let ghost mut done: Seq<RawElem> = seq![];
        proof {
            assert(Seq::<RawElem>::empty() + sr.elems =~= sr.elems);
        }
        loop
            invariant_except_break
                n == d.len(),
                d == header@,
                sr == scan_from(d, 0, 4),
                scan_fits(n as int),
                start as int <= n + 0x1_0000_0025,
                sr.elems == done + scan_from(d, start as int, end as int).elems,
                sr.end == scan_from(d, start as int, end as int).end,
                decode_headers(done) == Some(fields.deep_view()),
                mac_feed@ == old(mac_feed)@ + payload_concat(done),
            ensures
                sr.elems == done,
                sr.end == end as int,
                decode_headers(done) == Some(fields.deep_view()),
                mac_feed@ == old(mac_feed)@ + payload_concat(done),
            decreases clamp0(n - start),
        {
            let ghost step = scan_from(d, start as int, end as int);
            if start + 11 >= n {
                proof {
                    assert(step.elems =~= Seq::<RawElem>::empty());
                    assert(done + step.elems =~= done);
                }
                break;
            }
            let l32 = bytes_as_u32(slice_subrange(header, start, start + 4));
            let l = l32 as usize;
            let t = *slice_index_get(header, start + 4);
            let ps = start + 5;
            let pe = ps + l;
            proof {
                assert(l as int == le32(d.subrange(start as int, start as int + 4)));
            }
            if pe >= n {
                end = pe;
                proof {
                    assert(step.elems =~= Seq::<RawElem>::empty());
                    assert(done + step.elems =~= done);
                    assert(step.end == pe as int);
                }
                break;
            }
            if t == 255 {
                end = advance_padding(ps, l);
                proof {
                    assert(step.elems =~= Seq::<RawElem>::empty());
                    assert(done + step.elems =~= done);
                    assert(step.end == pad_end(ps as int, l as int));
                }
                break;
            }
            let payload = slice_subrange(header, ps, pe);
            let ghost elem = RawElem { t: t, payload: payload@ };
            let ghost ne_i = pad_end(ps as int, l as int);
            let ghost rest = scan_from(d, ne_i, ne_i);
            proof {
                assert(step.elems == seq![elem] + rest.elems && step.end == rest.end);
            }
            crate::crypt::append_slice(mac_feed, payload);
            let f = match HeaderField::load(t, payload) {
                Ok(f) => f,
                Err(e) => {
                    proof {
                        lemma_decode_headers_concat(done, seq![elem] + rest.elems);
                        assert((seq![elem] + rest.elems)[0] == elem);
                        assert(decode_headers(seq![elem] + rest.elems) is None);
                        assert(decode_headers(sr.elems) is None);
                    }
                    return Err(e);
                },
            };
            let ghost fields_dv0 = fields.deep_view();
            fields.push(Header { field: f, len: l });
            proof {
                let hv = HeaderV { field: f@, len: l as int };
                // the freshly pushed element decodes onto the end
                lemma_decode_headers_concat(done, seq![elem]);
                assert(seq![elem][0] == elem);
                assert(seq![elem].drop_first() =~= Seq::<RawElem>::empty());
                assert(decode_headers(Seq::<RawElem>::empty()) == Some(Seq::<HeaderV>::empty()));
                assert(decode_headers(seq![elem]) == Some(seq![hv] + Seq::<HeaderV>::empty()));
                assert(seq![hv] + Seq::<HeaderV>::empty() =~= seq![hv]);
                assert(done.push(elem) =~= done + seq![elem]);
                assert(decode_headers(done + seq![elem]) == Some(fields_dv0 + seq![hv]));
                assert(fields.deep_view() =~= fields_dv0 + seq![hv]);
                // the MAC feed grows by exactly the payload
                lemma_payload_concat_push(done, elem);
                assert(old(mac_feed)@ + payload_concat(done) + elem.payload =~= old(mac_feed)@
                    + payload_concat(done.push(elem)));
                // the remaining scan picks up after the padding
                assert(done + (seq![elem] + rest.elems) =~= done.push(elem) + rest.elems);
                done = done.push(elem);
                lemma_pad_end_bounds(ps as int, l as int);
            }
            end = advance_padding(ps, l);
            start = end;
        }
        Ok((end, fields))
    }

    /// Scans one TLV run for a single record, feeding every parsed payload
    /// to `mac_feed`; sentinel payloads are not fed.  Returns the final
    /// cursor and the record (possibly with no fields).
    pub fn read_record(record: &[u8], mac_feed: &mut Vec<u8>) -> (r: Result<
        (usize, DbRecord),
        PwSafeError,
    >)
        requires
            scan_fits(record@.len() as int),
        ensures
            ({
                let sr = scan_from(record@, 0, 4);
                match r {
                    Ok((end, rec)) => end as int == sr.end && decode_record_fields(sr.elems)
                        == Some(rec@) && final(mac_feed)@ == old(mac_feed)@ + payload_concat(
                        sr.elems,
                    ),
                    Err(e) => e == PwSafeError::InvalidUtf8InStringField && decode_record_fields(
                        sr.elems,
                    ) is None,
                }
            }),
    {
        let ghost d = record@;
        let ghost sr = scan_from(d, 0, 4);
        let n = record.len();
        let mut start: usize = 0;
        let mut end: usize = 4;
        let mut fields: Vec<RecordField> = Vec::new();
        let ghost mut done: Seq<RawElem> = seq![];
        proof {
            assert(Seq::<RawElem>::empty() + sr.elems =~= sr.elems);
        }
        loop
            invariant_except_break
                n == d.len(),
                d == record@,
                sr == scan_from(d, 0, 4),
                scan_fits(n as int),
                start as int <= n + 0x1_0000_0025,
                sr.elems == done + scan_from(d, start as int, end as int).elems,
                sr.end == scan_from(d, start as int, end as int).end,
                decode_record_fields(done) == Some(fields.deep_view()),
                mac_feed@ == old(mac_feed)@ + payload_concat(done),
            ensures
                sr.elems == done,
                sr.end == end as int,
                decode_record_fields(done) == Some(fields.deep_view()),
                mac_feed@ == old(mac_feed)@ + payload_concat(done),
            decreases clamp0(n - start),
        {
            let ghost step = scan_from(d, start as int, end as int);
            if start + 11 >= n {
                proof {
                    assert(step.elems =~= Seq::<RawElem>::empty());
                    assert(done + step.elems =~= done);
                }
                break;
            }
            let l32 = bytes_as_u32(slice_subrange(record, start, start + 4));
            let l = l32 as usize;
            let t = *slice_index_get(record, start + 4);
            let ps = start + 5;
            let pe = ps + l;
            proof {
                assert(l as int == le32(d.subrange(start as int, start as int + 4)));
            }
            if pe >= n {
                end = pe;
                proof {
                    assert(step.elems =~= Seq::<RawElem>::empty());
                    assert(done + step.elems =~= done);
                    assert(step.end == pe as int);
                }
                break;
            }
            if t == 255 {
                end = advance_padding(ps, l);
                proof {
                    assert(step.elems =~= Seq::<RawElem>::empty());
                    assert(done + step.elems =~= done);
                    assert(step.end == pad_end(ps as int, l as int));
                }
                break;
            }
            let payload = slice_subrange(record, ps, pe);
            let ghost elem = RawElem { t: t, payload: payload@ };
            let ghost ne_i = pad_end(ps as int, l as int);
            let ghost rest = scan_from(d, ne_i, ne_i);
            proof {
                assert(step.elems == seq![elem] + rest.elems && step.end == rest.end);
            }
            crate::crypt::append_slice(mac_feed, payload);
            let f = match RecordField::load(t, payload) {
                Ok(f) => f,
                Err(e) => {
                    proof {
                        lemma_decode_record_fields_concat(done, seq![elem] + rest.elems);
                        assert((seq![elem] + rest.elems)[0] == elem);
                        assert(decode_record_fields(seq![elem] + rest.elems) is None);
                        assert(decode_record_fields(sr.elems) is None);
                    }
                    return Err(e);
                },
            };
            let ghost fields_dv0 = fields.deep_view();
            fields.push(f);
            proof {
                let fv = f@;
                // the freshly pushed element decodes onto the end
                lemma_decode_record_fields_concat(done, seq![elem]);
                assert(seq![elem][0] == elem);
                assert(seq![elem].drop_first() =~= Seq::<RawElem>::empty());
                assert(decode_record_fields(Seq::<RawElem>::empty()) == Some(
                    Seq::<RecordFieldV>::empty(),
                ));
                assert(decode_record_fields(seq![elem]) == Some(
                    seq![fv] + Seq::<RecordFieldV>::empty(),
                ));
                assert(seq![fv] + Seq::<RecordFieldV>::empty() =~= seq![fv]);
                assert(done.push(elem) =~= done + seq![elem]);
                assert(decode_record_fields(done + seq![elem]) == Some(fields_dv0 + seq![fv]));
                assert(fields.deep_view() =~= fields_dv0 + seq![fv]);
                // the MAC feed grows by exactly the payload
                lemma_payload_concat_push(done, elem);
                assert(old(mac_feed)@ + payload_concat(done) + elem.payload =~= old(mac_feed)@
                    + payload_concat(done.push(elem)));
                // the remaining scan picks up after the padding
                assert(done + (seq![elem] + rest.elems) =~= done.push(elem) + rest.elems);
                done = done.push(elem);
                lemma_pad_end_bounds(ps as int, l as int);
            }
            end = advance_padding(ps, l);
            start = end;
        }
        Ok((end, DbRecord { fields }))
    }

    /// Parses the whole plaintext: one header run, then record runs until
    /// the buffer is exhausted, feeding every parsed payload to the MAC;
    /// finally compares the computed tag against the stored one.  Only a
    /// database whose tag verifies is returned.
    pub fn load(data: &Vec<u8>, l: &Vec<u8>, sig: &Vec<u8>) -> (r: Result<PwDb, PwSafeError>)
        requires
            scan_fits(data@.len() as int),
        ensures
            match r {
                Ok(db) => parse_db_spec(data@, l@, sig@) == Ok::<PwDbV, PwSafeError>(db@),
                Err(e) => parse_db_spec(data@, l@, sig@) == Err::<PwDbV, PwSafeError>(e),
            },
    {
        let ghost hsr = scan_from(data@, 0, 4);
        let ghost hfeed = payload_concat(hsr.elems);
        let mut mac_feed: Vec<u8> = Vec::new();
        let (hend, header) = match Self::read_header(data.as_slice(), &mut mac_feed) {
            Ok(x) => x,
            Err(e) => {
                proof {
                    assert(decode_headers(hsr.elems) is None);
                    assert(parse_db_spec(data@, l@, sig@) == Err::<PwDbV, PwSafeError>(
                        PwSafeError::InvalidUtf8InStringField,
                    ));
                }
                return Err(e);
            },
        };
        proof {
            assert(Seq::<u8>::empty() + hfeed =~= hfeed);
            lemma_scan_end_upper(data@, 0, 4);
        }
        let n = data.len();
        let mut records: Vec<DbRecord> = Vec::new();
        let mut offset: usize = hend;
        let ghost mut feed_done: Seq<u8> = seq![];
        proof {
            match records_from(data@, hend as int) {
                None => {},
                Some((recs, feed)) => {
                    assert(records.deep_view() =~= Seq::<Seq<RecordFieldV>>::empty());
                    assert(Seq::<Seq<RecordFieldV>>::empty() + recs =~= recs);
                    assert(feed_done + feed =~= feed);
                },
            }
        }
        loop
            invariant_except_break
                n == data@.len(),
                scan_fits(n as int),
                hsr == scan_from(data@, 0, 4),
                hend as int == hsr.end,
                offset as int <= n + 0x1_0000_0020,
                mac_feed@ == hfeed + feed_done,
                records_from(data@, hend as int) == (match records_from(data@, offset as int) {
                    None => None::<(Seq<Seq<RecordFieldV>>, Seq<u8>)>,
                    Some((recs, feed)) => Some((records.deep_view() + recs, feed_done + feed)),
                }),
            ensures
                mac_feed@ == hfeed + feed_done,
                records_from(data@, hend as int) == Some((records.deep_view(), feed_done)),
            decreases clamp0(n + 1 - offset),
        {
            if offset > n {
                proof {
                    match records_from(data@, offset as int) {
                        None => {},
                        Some((recs, feed)) => {
                            assert(recs =~= Seq::<Seq<RecordFieldV>>::empty());
                            assert(feed =~= Seq::<u8>::empty());
                            assert(records.deep_view() + recs =~= records.deep_view());
                            assert(feed_done + feed =~= feed_done);
                        },
                    }
                }
                break;
            }
            let sub = slice_subrange(data.as_slice(), offset, n);
            let ghost ssr = scan_from(sub@, 0, 4);
            proof {
                lemma_scan_end_ge(sub@, 0, 4);
                lemma_scan_end_upper(sub@, 0, 4);
            }
            let (rend, rec) = match Self::read_record(sub, &mut mac_feed) {
                Ok(x) => x,
                Err(e) => {
                    proof {
                        assert(records_from(data@, offset as int) is None);
                        assert(records_from(data@, hsr.end) is None);
                        assert(parse_db_spec(data@, l@, sig@) == Err::<PwDbV, PwSafeError>(
                            PwSafeError::InvalidUtf8InStringField,
                        ));
                    }
                    return Err(e);
                },
            };
            let ghost recs_dv0 = records.deep_view();
            if rec.fields.len() > 0 {
                records.push(rec);
                proof {
                    assert(records.deep_view() =~= recs_dv0 + seq![rec@]);
                }
            }
            proof {
                let pc = payload_concat(ssr.elems);
                match records_from(data@, offset + ssr.end) {
                    None => {},
                    Some((recs2, feed2)) => {
                        assert(recs_dv0 + (seq![rec@] + recs2) =~= (recs_dv0 + seq![rec@])
                            + recs2);
                        assert(feed_done + (pc + feed2) =~= (feed_done + pc) + feed2);
                    },
                }
                assert(hfeed + feed_done + pc =~= hfeed + (feed_done + pc));
                feed_done = feed_done + pc;
                assert(rec@ =~= rec.fields.deep_view());
            }
            offset = offset + rend;
        }
        let tag = hmac_sha256_tag(l, &mac_feed);
        if !bytes_eq(&tag, sig) {
            return Err(PwSafeError::InvalidSignature);
        }
        Ok(PwDb { header, records })
    }
}

} // verus!
