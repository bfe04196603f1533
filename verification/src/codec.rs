//! The external form of entity ids and versions: a compact record holding
//! one 64-bit integer field, wire-encoded and then base64url-encoded.
use vstd::prelude::*;

verus! {

use crate::errors::FieldError;
use crate::values::{EntityId, EntityVersion};

/// What base64url encoding (url-safe alphabet, with padding) makes of a
/// byte string.
pub uninterp spec fn base64url_of(bytes: Seq<u8>) -> Seq<char>;

/// What base64url decoding makes of a character string, when it is valid
/// base64url.
pub uninterp spec fn base64url_decoded(s: Seq<char>) -> Option<Seq<u8>>;

/// Relies on base64's `Engine::encode` with the `URL_SAFE` engine: the
/// result depends on the input bytes alone, and decoding it with the same
/// engine returns the input. The length bound keeps the engine's buffer
/// arithmetic far from overflow.
#[verifier::external_body]
fn base64url_encode(bytes: &Vec<u8>) -> (r: String)
    requires
        bytes@.len() <= 0x1000000,
    ensures
        r@ == base64url_of(bytes@),
        base64url_decoded(r@) == Some(bytes@),
{
    base64::Engine::encode(&base64::engine::general_purpose::URL_SAFE, bytes.as_slice())
}

/// Relies on base64's `Engine::decode` with the `URL_SAFE` engine: success
/// and result depend on the input characters alone.
#[verifier::external_body]
fn base64url_decode(s: &str) -> (r: Option<Vec<u8>>)
    ensures
        match r {
            Some(v) => base64url_decoded(s@) == Some(v@),
            None => base64url_decoded(s@) is None,
        },
{
    base64::Engine::decode(&base64::engine::general_purpose::URL_SAFE, s).ok()
}

/// The little-endian base-128 encoding of an integer, each byte holding
/// seven bits, with the continuation bit set on all but the last.
pub open spec fn varint(n: nat) -> Seq<u8>
    decreases n,
{
    if n < 128 {
        seq![n as u8]
    } else {
        seq![(128 + n % 128) as u8] + varint(n / 128)
    }
}

/// The wire record holding one 64-bit integer field with tag 1: empty when
/// the value is zero, else the field key byte followed by the varint of the
/// value's unsigned reinterpretation.
pub open spec fn int64_record(x: i64) -> Seq<u8> {
    if x == 0 {
        Seq::empty()
    } else {
        seq![8u8] + varint((x as u64) as nat)
    }
}

/// 128 raised to a power.
pub open spec fn pow128(k: nat) -> nat
    decreases k,
{
    if k == 0 {
        1
    } else {
        128 * pow128((k - 1) as nat)
    }
}

/// A number below `128^k` encodes in at most `k` bytes.
proof fn lemma_varint_len_bounded(x: nat, k: nat)
    requires
        1 <= k,
        x < pow128(k),
    ensures
        1 <= varint(x).len() <= k,
    decreases k,
{
    if x >= 128 {
        assert(pow128(k) == 128 * pow128((k - 1) as nat));
        assert(x / 128 < pow128((k - 1) as nat)) by (nonlinear_arith)
            requires
                x < 128 * pow128((k - 1) as nat),
        ;
        lemma_varint_len_bounded(x / 128, (k - 1) as nat);
    }
}

/// Any 64-bit value encodes in at most ten bytes.
pub proof fn lemma_varint_len(x: nat)
    requires
        x <= u64::MAX,
    ensures
        1 <= varint(x).len() <= 10,
{
    assert(pow128(0) == 1);
    assert(pow128(1) == 128);
    assert(pow128(2) == 0x4000);
    assert(pow128(3) == 0x200000);
    assert(pow128(4) == 0x10000000);
    assert(pow128(5) == 0x800000000);
    assert(pow128(6) == 0x40000000000);
    assert(pow128(7) == 0x2000000000000);
    assert(pow128(8) == 0x100000000000000);
    assert(pow128(9) == 0x8000000000000000);
    assert(pow128(10) == 0x400000000000000000);
    lemma_varint_len_bounded(x, 10);
}

/// Appends the varint encoding of `x`.
fn push_varint(out: &mut Vec<u8>, x: u64)
    ensures
        final(out)@ == old(out)@ + varint(x as nat),
    decreases x,
{
    if x < 128 {
        out.push(x as u8);
        proof {
            assert(out@ =~= old(out)@ + varint(x as nat));
        }
    } else {
        out.push((128 + x % 128) as u8);
        push_varint(out, x / 128);
        proof {
            assert(out@ =~= old(out)@ + varint(x as nat));
        }
    }
}

/// Where varint parsing of `s` from position `i` leads: the parsed value
/// and the position after it, when a complete varint that fits 64 bits
/// starts there.
pub open spec fn varint_parse(s: Seq<u8>, i: int) -> Option<(nat, int)>
    decreases s.len() - i,
{
    if i < 0 || i >= s.len() {
        None
    } else if s[i] < 128 {
        Some((s[i] as nat, i + 1))
    } else {
        match varint_parse(s, i + 1) {
            None => None,
            Some((rest, j)) => {
                if rest > (u64::MAX as nat - (s[i] as nat - 128)) / 128 {
                    None
                } else {
                    Some(((rest * 128 + (s[i] - 128)) as nat, j))
                }
            },
        }
    }
}

/// Parses a varint from position `start`, as `varint_parse` describes.
fn parse_varint(bytes: &Vec<u8>, start: usize) -> (r: Option<(u64, usize)>)
    requires
        start <= bytes@.len(),
    ensures
        match r {
            Some(p) => varint_parse(bytes@, start as int) == Some((p.0 as nat, p.1 as int))
                && start < p.1 <= bytes@.len(),
            None => varint_parse(bytes@, start as int) is None,
        },
    decreases bytes@.len() - start,
{
    if start >= bytes.len() {
        return None;
    }
    let b = bytes[start];
    if b < 128 {
        Some((b as u64, start + 1))
    } else {
        match parse_varint(bytes, start + 1) {
            None => None,
            Some((rest, j)) => {
                let low: u64 = (b - 128) as u64;
                if rest > (u64::MAX - low) / 128 {
                    None
                } else {
                    proof {
                        assert(rest * 128 <= ((u64::MAX - low) / 128) * 128);
                        assert(((u64::MAX - low) / 128) * 128 <= u64::MAX - low);
                    }
                    Some((rest * 128 + low, j))
                }
            },
        }
    }
}

/// Parsing a varint encoding embedded at position `i` returns the encoded
/// value and stops right after it.
pub proof fn lemma_varint_parse_of_encoding(x: nat, s: Seq<u8>, i: int)
    requires
        x <= u64::MAX,
        0 <= i,
        i + varint(x).len() <= s.len(),
        s.subrange(i, i + varint(x).len()) == varint(x),
    ensures
        varint_parse(s, i) == Some((x, i + varint(x).len())),
    decreases x,
{
    if x < 128 {
        assert(s[i] == varint(x)[0]);
    } else {
        let tail = varint(x / 128);
        assert(s[i] == varint(x)[0]);
        assert(s[i] == (128 + x % 128) as u8);
        assert(s.subrange(i + 1, i + 1 + tail.len()) =~= tail) by {
            assert(forall|k: int| 0 <= k < tail.len() ==> s.subrange(
                i,
                i + varint(x).len(),
            )[k + 1] == #[trigger] tail[k]);
        }
        assert(x / 128 <= u64::MAX as nat) by (nonlinear_arith)
            requires
                x <= u64::MAX,
        ;
        lemma_varint_parse_of_encoding(x / 128, s, i + 1);
        assert(varint_parse(s, i + 1) == Some((x / 128, i + 1 + tail.len())));
        let low = s[i] as nat - 128;
        assert(low == x % 128);
        assert((x / 128) * 128 + x % 128 == x) by (nonlinear_arith);
        assert(x / 128 <= (u64::MAX as nat - low) / 128) by (nonlinear_arith)
            requires
                (x / 128) * 128 + low == x,
                x <= u64::MAX,
                0 <= low < 128,
        ;
    }
}

/// Where record parsing of a byte string leads: zero for the empty record,
/// else the value of the single integer field, which must fill the record
/// exactly.
pub open spec fn int64_record_parse(s: Seq<u8>) -> Option<i64> {
    if s.len() == 0 {
        Some(0)
    } else if s[0] == 8 {
        match varint_parse(s, 1) {
            Some((v, j)) => {
                if j == s.len() {
                    Some((v as u64) as i64)
                } else {
                    None
                }
            },
            None => None,
        }
    } else {
        None
    }
}

/// Parsing the record of a value returns that value: the verified half of
/// the external-form round trip.
pub proof fn lemma_int64_record_round_trip(x: i64)
    ensures
        int64_record_parse(int64_record(x)) == Some(x),
{
    if x != 0 {
        let s = int64_record(x);
        let u = (x as u64) as nat;
        assert(u <= u64::MAX);
        lemma_varint_len(u);
        assert(s.subrange(1, 1 + varint(u).len() as int) =~= varint(u));
        lemma_varint_parse_of_encoding(u, s, 1);
        assert(varint_parse(s, 1) == Some((u, s.len() as int)));
        assert((x as u64) as i64 == x) by (bit_vector);
        assert(u as u64 == x as u64);
    }
}

impl EntityId {
    /// The external text form of an entity id: its record, base64url
    /// encoded.
    pub fn encode(self) -> (r: String)
        ensures
            r@ == base64url_of(int64_record(self.0)),
            base64url_decoded(r@) == Some(int64_record(self.0)),
    {
        encode_int64_record(self.0)
    }

    /// Reads an entity id back from its external text form; fails with
    /// `InvalidEntityId` on anything the encoder cannot produce.
    pub fn decode(s: &str) -> (r: Result<EntityId, FieldError>)
        ensures
            match r {
                Ok(id) => base64url_decoded(s@) matches Some(bs) && int64_record_parse(bs)
                    == Some(id.0),
                Err(e) => {
                    &&& e == FieldError::InvalidEntityId
                    &&& match base64url_decoded(s@) {
                        Some(bs) => int64_record_parse(bs) is None,
                        None => true,
                    }
                },
            },
    {
        match base64url_decode(s) {
            None => Err(FieldError::InvalidEntityId),
            Some(bytes) => {
                if bytes.len() == 0 {
                    Ok(EntityId(0))
                } else if bytes[0] == 8 {
                    match parse_varint(&bytes, 1) {
                        Some((v, j)) => {
                            if j == bytes.len() {
                                Ok(EntityId(v as i64))
                            } else {
                                Err(FieldError::InvalidEntityId)
                            }
                        },
                        None => Err(FieldError::InvalidEntityId),
                    }
                } else {
                    Err(FieldError::InvalidEntityId)
                }
            },
        }
    }
}

impl EntityVersion {
    /// The external text form of an entity version: its record, base64url
    /// encoded.
    pub fn encode(self) -> (r: String)
        ensures
            r@ == base64url_of(int64_record(self.0)),
            base64url_decoded(r@) == Some(int64_record(self.0)),
    {
        encode_int64_record(self.0)
    }
}

/// Encodes the record of one 64-bit value and wraps it in base64url.
fn encode_int64_record(x: i64) -> (r: String)
    ensures
        r@ == base64url_of(int64_record(x)),
        base64url_decoded(r@) == Some(int64_record(x)),
{
    let mut bytes: Vec<u8> = Vec::new();
    if x != 0 {
        bytes.push(8);
        push_varint(&mut bytes, x as u64);
        proof {
            lemma_varint_len((x as u64) as nat);
        }
    }
    proof {
        assert(bytes@ =~= int64_record(x));
    }
    base64url_encode(&bytes)
}

/// Conversion of a core value into its external representation.
pub trait IntoProto<T>: Sized {
    fn into_proto(self) -> T;
}

impl IntoProto<String> for EntityId {
    fn into_proto(self) -> String {
        self.encode()
    }
}

impl IntoProto<String> for EntityVersion {
    fn into_proto(self) -> String {
        self.encode()
    }
}

} // verus!
