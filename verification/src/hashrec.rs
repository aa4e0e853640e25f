use vstd::prelude::*;
use vstd::utf8::encode_utf8;
use crate::hashing::{hex_encode, hex_of, keccak256, keccak_of};

verus! {

/// One scored address record, as stored by the collaborator database.
/// `created_at`, when present, is a Unix timestamp in seconds.
pub struct AddressScore {
    pub id: Option<i64>,
    pub address: String,
    pub score: u32,
    pub created_at: Option<i64>,
}

/// The result of anchoring a batch of records: the canonical digest, when it
/// was computed, and how many records went in.
pub struct HashResponse {
    pub hash: String,
    pub timestamp: i64,
    pub record_count: usize,
}

/// Byte-wise lexicographic order, the order `String` comparison uses.
pub open spec fn lex_le(a: Seq<u8>, b: Seq<u8>) -> bool
    decreases a.len(),
{
    if a.len() == 0 {
        true
    } else if b.len() == 0 {
        false
    } else if a[0] < b[0] {
        true
    } else if a[0] > b[0] {
        false
    } else {
        lex_le(a.drop_first(), b.drop_first())
    }
}

/// The sort key of a record: its address's UTF-8 bytes.
pub open spec fn addr_key(e: AddressScore) -> Seq<u8> {
    encode_utf8(e.address@)
}

/// Insertion after every record whose key is less than or equal: records
/// with equal addresses keep their relative order.
pub open spec fn spec_insert_by_addr(x: AddressScore, s: Seq<AddressScore>) -> Seq<AddressScore>
    decreases s.len(),
{
    if s.len() == 0 {
        seq![x]
    } else if lex_le(addr_key(s[0]), addr_key(x)) {
        seq![s[0]] + spec_insert_by_addr(x, s.drop_first())
    } else {
        seq![x] + s
    }
}

/// Stable insertion sort by address, the deterministic order the canonical
/// serialization rests on.
pub open spec fn sort_by_addr(s: Seq<AddressScore>) -> Seq<AddressScore>
    decreases s.len(),
{
    if s.len() == 0 {
        Seq::empty()
    } else {
        spec_insert_by_addr(s.last(), sort_by_addr(s.drop_last()))
    }
}

/// Inserting at the boundary found by a scan is what the recursive insertion
/// does: everything at most the key, then the record, then the rest.
proof fn lemma_insert_at(x: AddressScore, s: Seq<AddressScore>, p: int)
    requires
        0 <= p <= s.len(),
        forall|j: int| 0 <= j < p ==> lex_le(#[trigger] addr_key(s[j]), addr_key(x)),
        p < s.len() ==> !lex_le(addr_key(s[p]), addr_key(x)),
    ensures
        spec_insert_by_addr(x, s) =~= s.take(p) + seq![x] + s.skip(p),
    decreases s.len(),
{
    if p == 0 {
        if s.len() == 0 {
        } else {
            assert(!lex_le(addr_key(s[0]), addr_key(x)));
        }
    } else {
        assert(lex_le(addr_key(s[0]), addr_key(x)));
        lemma_insert_at(x, s.drop_first(), p - 1);
        assert(s.drop_first().take(p - 1) =~= s.take(p).drop_first());
        assert(s.drop_first().skip(p - 1) =~= s.skip(p));
    }
}

/// Compares two byte slices lexicographically.
fn bytes_le(a: &[u8], b: &[u8]) -> (r: bool)
    ensures
        r == lex_le(a@, b@),
{
    let na = a.len();
    let nb = b.len();
    let mut i: usize = 0;
    proof {
        assert(a@.skip(0int) =~= a@);
        assert(b@.skip(0int) =~= b@);
    }
    while i < na && i < nb
        invariant
            0 <= i <= na,
            0 <= i <= nb,
            na == a@.len(),
            nb == b@.len(),
            lex_le(a@, b@) == lex_le(a@.skip(i as int), b@.skip(i as int)),
        decreases na - i,
    {
        proof {
            assert(a@.skip(i as int).drop_first() =~= a@.skip(i + 1));
            assert(b@.skip(i as int).drop_first() =~= b@.skip(i + 1));
        }
        if a[i] < b[i] {
            return true;
        }
        if a[i] > b[i] {
            return false;
        }
        i += 1;
    }
    na <= nb
}

/// Inserts one record into an already built prefix, after all records whose
/// address does not exceed its own.
fn insert_by_addr(res: &mut Vec<AddressScore>, x: AddressScore)
    ensures
        final(res)@ =~= spec_insert_by_addr(x, old(res)@),
{
    let n = res.len();
    let mut p: usize = 0;
    while p < n && bytes_le(res[p].address.as_str().as_bytes(), x.address.as_str().as_bytes())
        invariant
            0 <= p <= n,
            *res == *old(res),
            n == res@.len(),
            forall|j: int| 0 <= j < p ==> lex_le(#[trigger] addr_key(res@[j]), addr_key(x)),
        decreases n - p,
    {
        p += 1;
    }
    proof {
        lemma_insert_at(x, res@, p as int);
    }
    res.insert(p, x);
}

/// Sorts records by address, stably: the order `sort_by_addr` describes.
pub fn sort_addresses(input: Vec<AddressScore>) -> (r: Vec<AddressScore>)
    ensures
        r@ =~= sort_by_addr(input@),
{
    let mut rest = input;
    let mut res: Vec<AddressScore> = Vec::new();
    let ghost all = rest@;
    let n = rest.len();
    let mut k: usize = 0;
    proof {
        assert(all.take(0int) =~= Seq::<AddressScore>::empty());
    }
    while k < n
        invariant
            0 <= k <= n,
            n == all.len(),
            rest@ =~= all.skip(k as int),
            res@ =~= sort_by_addr(all.take(k as int)),
        decreases n - k,
    {
        let x = rest.remove(0);
        proof {
            assert(all.skip(k as int)[0] == all[k as int]);
            assert(all.skip(k as int).subrange(1, all.skip(k as int).len() as int) =~= all.skip(
                k + 1,
            ));
            assert(all.take(k + 1).drop_last() =~= all.take(k as int));
            assert(all.take(k + 1).last() == all[k as int]);
        }
        insert_by_addr(&mut res, x);
        k += 1;
    }
    proof {
        assert(all.take(n as int) =~= all);
    }
    res
}

/// The lowercase mapping of a character sequence. Left abstract: the
/// canonical form only needs it to be a fixed function of the characters.
pub uninterp spec fn lower_of(s: Seq<char>) -> Seq<char>;

/// Relies on str::to_lowercase: the Unicode-lowercased text, a function of
/// the characters alone.
#[verifier::external_body]
fn to_lowercase(s: &String) -> (r: String)
    ensures
        r@ == lower_of(s@),
{
    s.as_str().to_lowercase()
}

/// One lowercase hexadecimal digit, as a byte.
pub open spec fn hex_digit_byte(n: u8) -> u8 {
    if n < 10 {
        (48 + n) as u8
    } else {
        (87 + n) as u8
    }
}

/// How one byte of string content is written inside a JSON string: the two
/// quote and backslash escapes, the five short control escapes, `\u00XX`
/// for the remaining control bytes, and everything else verbatim.
pub open spec fn json_escape_byte(b: u8) -> Seq<u8> {
    if b == 0x22 {
        seq![0x5cu8, 0x22u8]
    } else if b == 0x5c {
        seq![0x5cu8, 0x5cu8]
    } else if b == 0x08 {
        seq![0x5cu8, 0x62u8]
    } else if b == 0x09 {
        seq![0x5cu8, 0x74u8]
    } else if b == 0x0a {
        seq![0x5cu8, 0x6eu8]
    } else if b == 0x0c {
        seq![0x5cu8, 0x66u8]
    } else if b == 0x0d {
        seq![0x5cu8, 0x72u8]
    } else if b < 0x20 {
        seq![0x5cu8, 0x75u8, 0x30u8, 0x30u8, hex_digit_byte(b >> 4u8), hex_digit_byte(b & 0x0fu8)]
    } else {
        seq![b]
    }
}

/// A whole byte string escaped for a JSON string body.
pub open spec fn json_escape(s: Seq<u8>) -> Seq<u8>
    decreases s.len(),
{
    if s.len() == 0 {
        Seq::empty()
    } else {
        json_escape(s.drop_last()) + json_escape_byte(s.last())
    }
}

/// The decimal digits of a nonnegative number, most significant first.
pub open spec fn dec_digits(n: int) -> Seq<u8>
    decreases n,
{
    if n < 10 {
        seq![(48 + n) as u8]
    } else {
        dec_digits(n / 10) + seq![(48 + (n % 10)) as u8]
    }
}

/// `{"address":"` — the opening of one record object.
pub open spec fn record_open() -> Seq<u8> {
    seq![
        0x7bu8, 0x22u8, 0x61u8, 0x64u8, 0x64u8, 0x72u8, 0x65u8, 0x73u8, 0x73u8, 0x22u8, 0x3au8,
        0x22u8,
    ]
}

/// `","score":` — between the address and the score.
pub open spec fn record_mid() -> Seq<u8> {
    seq![0x22u8, 0x2cu8, 0x22u8, 0x73u8, 0x63u8, 0x6fu8, 0x72u8, 0x65u8, 0x22u8, 0x3au8]
}

/// One record as a JSON object: the lowercased, escaped address, then the
/// score in decimal.
pub open spec fn record_json(e: AddressScore) -> Seq<u8> {
    record_open() + json_escape(encode_utf8(lower_of(e.address@))) + record_mid() + dec_digits(
        e.score as int,
    ) + seq![0x7du8]
}

/// All records, comma-separated.
pub open spec fn records_json(s: Seq<AddressScore>) -> Seq<u8>
    decreases s.len(),
{
    if s.len() == 0 {
        Seq::empty()
    } else if s.len() == 1 {
        record_json(s[0])
    } else {
        records_json(s.drop_last()) + seq![0x2cu8] + record_json(s.last())
    }
}

/// The canonical serialization of a record batch: the records in their given
/// order, as a JSON array with objects of sorted keys and no whitespace.
pub open spec fn canonical_json(s: Seq<AddressScore>) -> Seq<u8> {
    seq![0x5bu8] + records_json(s) + seq![0x5du8]
}

/// Appends the decimal digits of a number.
fn push_dec_u32(out: &mut Vec<u8>, n: u32)
    ensures
        final(out)@ =~= old(out)@ + dec_digits(n as int),
    decreases n,
{
    if n < 10 {
        out.push(48 + n as u8);
    } else {
        push_dec_u32(out, n / 10);
        out.push(48 + (n % 10) as u8);
    }
}

/// Appends one escaped byte of string content.
fn push_escaped_byte(out: &mut Vec<u8>, b: u8)
    ensures
        final(out)@ =~= old(out)@ + json_escape_byte(b),
{
    if b == 0x22 {
        out.push(0x5c);
        out.push(0x22);
    } else if b == 0x5c {
        out.push(0x5c);
        out.push(0x5c);
    } else if b == 0x08 {
        out.push(0x5c);
        out.push(0x62);
    } else if b == 0x09 {
        out.push(0x5c);
        out.push(0x74);
    } else if b == 0x0a {
        out.push(0x5c);
        out.push(0x6e);
    } else if b == 0x0c {
        out.push(0x5c);
        out.push(0x66);
    } else if b == 0x0d {
        out.push(0x5c);
        out.push(0x72);
    } else if b < 0x20 {
        out.push(0x5c);
        out.push(0x75);
        out.push(0x30);
        out.push(0x30);
        let hi = b >> 4u8;
        let lo = b & 0x0fu8;
        proof {
            assert(b >> 4u8 < 16 && (b & 0x0fu8) < 16) by (bit_vector);
        }
        out.push(
            if hi < 10 {
                48 + hi
            } else {
                87 + hi
            },
        );
        out.push(
            if lo < 10 {
                48 + lo
            } else {
                87 + lo
            },
        );
    } else {
        out.push(b);
    }
}

/// Appends a whole escaped byte string.
fn push_escaped(out: &mut Vec<u8>, s: &Vec<u8>)
    ensures
        final(out)@ =~= old(out)@ + json_escape(s@),
{
    let n = s.len();
    let mut i: usize = 0;
    while i < n
        invariant
            0 <= i <= n,
            n == s@.len(),
            out@ =~= old(out)@ + json_escape(s@.take(i as int)),
        decreases n - i,
    {
        push_escaped_byte(out, s[i]);
        proof {
            assert(s@.take(i + 1).drop_last() =~= s@.take(i as int));
            assert(s@.take(i + 1).last() == s@[i as int]);
        }
        i += 1;
    }
    proof {
        assert(s@.take(n as int) =~= s@);
    }
}

/// Appends one record object.
fn push_record(out: &mut Vec<u8>, e: &AddressScore)
    ensures
        final(out)@ =~= old(out)@ + record_json(*e),
{
    let ghost base = out@;
    out.push(0x7b);
    out.push(0x22);
    out.push(0x61);
    out.push(0x64);
    out.push(0x64);
    out.push(0x72);
    out.push(0x65);
    out.push(0x73);
    out.push(0x73);
    out.push(0x22);
    out.push(0x3a);
    out.push(0x22);
    proof {
        assert(out@ =~= base + record_open());
    }
    let lower = to_lowercase(&e.address);
    let lower_bytes = lower.as_str().as_bytes_vec();
    push_escaped(out, &lower_bytes);
    let ghost mid0 = out@;
    out.push(0x22);
    out.push(0x2c);
    out.push(0x22);
    out.push(0x73);
    out.push(0x63);
    out.push(0x6f);
    out.push(0x72);
    out.push(0x65);
    out.push(0x22);
    out.push(0x3a);
    proof {
        assert(out@ =~= mid0 + record_mid());
    }
    push_dec_u32(out, e.score);
    out.push(0x7d);
}

/// Serializes a record batch into its canonical JSON bytes. Public so the
/// canonical form itself can be exercised against an ordinary serializer.
pub fn render_canonical(records: &Vec<AddressScore>) -> (r: Vec<u8>)
    ensures
        r@ =~= canonical_json(records@),
{
    let n = records.len();
    let mut out: Vec<u8> = Vec::new();
    out.push(0x5b);
    let mut k: usize = 0;
    while k < n
        invariant
            0 <= k <= n,
            n == records@.len(),
            out@ =~= seq![0x5bu8] + records_json(records@.take(k as int)),
        decreases n - k,
    {
        if k > 0 {
            out.push(0x2c);
        }
        push_record(&mut out, &records[k]);
        proof {
            assert(records@.take(k + 1).drop_last() =~= records@.take(k as int));
            assert(records@.take(k + 1).last() == records@[k as int]);
            if k == 0 {
                assert(records@.take(1int)[0] == records@[0int]);
            }
        }
        k += 1;
    }
    out.push(0x5d);
    proof {
        assert(records@.take(n as int) =~= records@);
    }
    out
}

/// Anchors a record batch: sorts it by address, serializes it canonically,
/// and digests the bytes. The hash is a function of the records' addresses
/// and scores alone — the same batch always yields the same hash — and the
/// response echoes the given timestamp and the record count.
pub fn hash_address_data(addresses: Vec<AddressScore>, timestamp: i64) -> (r: HashResponse)
    ensures
        r.record_count == addresses@.len(),
        r.timestamp == timestamp,
        r.hash@ == hex_of(keccak_of(canonical_json(sort_by_addr(addresses@)))),
{
    let n = addresses.len();
    let sorted = sort_addresses(addresses);
    let json = render_canonical(&sorted);
    let digest = keccak256(&json);
    let hash = hex_encode(&digest);
    HashResponse { hash, timestamp, record_count: n }
}

} // verus!
