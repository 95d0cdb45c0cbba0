//! The byte codec of packed payloads.
//!
//! State, delta, and action payloads travel as opaque byte strings.  This
//! module fixes their binary shape: little-endian 64-bit integers,
//! one-byte booleans, length-prefixed UTF-8 text, and counted lists.  For
//! every encoder there is a parsing spec, and a lemma that parsing an
//! encoding yields the encoded value back; the flow codecs build their
//! round-trip proofs from these.

use vstd::bytes::lemma_auto_spec_u64_to_from_le_bytes;
use vstd::bytes::spec_u64_from_le_bytes;
use vstd::bytes::spec_u64_to_le_bytes;
use vstd::bytes::u64_from_le_bytes;
use vstd::bytes::u64_to_le_bytes;
use vstd::prelude::*;
use vstd::slice::slice_subrange;
use vstd::slice::slice_to_vec;
use vstd::string::StrSliceExecFns;
use vstd::utf8::decode_utf8;
use vstd::utf8::encode_utf8;
use vstd::utf8::encode_utf8_decode_utf8;
use vstd::utf8::encode_utf8_valid_utf8;
use vstd::utf8::valid_utf8;

verus! {

/// A payload failed to decode: it was truncated, carried an unknown tag
/// or version, or held text that is not UTF-8.
#[derive(Debug, Clone, PartialEq, Eq, Structural)]
pub struct CodecError {}

impl CodecError {
    /// A short description of the failure.
    pub fn reason(&self) -> (r: String)
        ensures
            r@ == "failed to decode a packed payload"@,
    {
        "failed to decode a packed payload".to_owned()
    }
}

// ---------------------------------------------------------------------
// Unsigned 64-bit integers, little endian.
// ---------------------------------------------------------------------
/// Parses a little-endian `u64` from the front of `b`.
pub open spec fn parse_u64(b: Seq<u8>) -> Option<(u64, Seq<u8>)> {
    if b.len() >= 8 {
        Some((spec_u64_from_le_bytes(b.take(8)), b.skip(8)))
    } else {
        None
    }
}

/// Parsing undoes encoding for `u64`.
pub proof fn lemma_u64_round(v: u64, rest: Seq<u8>)
    ensures
        parse_u64(spec_u64_to_le_bytes(v) + rest) == Some((v, rest)),
{
    lemma_auto_spec_u64_to_from_le_bytes();
    assert((spec_u64_to_le_bytes(v) + rest).take(8) =~= spec_u64_to_le_bytes(v));
    assert((spec_u64_to_le_bytes(v) + rest).skip(8) =~= rest);
}

/// Appends the encoding of `v` to `buf`.
pub fn enc_u64(buf: &mut Vec<u8>, v: u64)
    ensures
        final(buf)@ == old(buf)@ + spec_u64_to_le_bytes(v),
{
    let mut bytes = u64_to_le_bytes(v);
    buf.append(&mut bytes);
}

/// Decodes a `u64` at position `pos` of `data`.
pub fn dec_u64(data: &Vec<u8>, pos: usize) -> (r: Option<(u64, usize)>)
    requires
        pos <= data@.len(),
    ensures
        match r {
            Some((v, end)) => {
                &&& pos <= end <= data@.len()
                &&& parse_u64(data@.skip(pos as int)) == Some((v, data@.skip(end as int)))
            },
            None => parse_u64(data@.skip(pos as int)) is None,
        },
{
    if data.len() - pos >= 8 {
        let piece = slice_subrange(data.as_slice(), pos, pos + 8);
        let v = u64_from_le_bytes(piece);
        proof {
            assert(data@.skip(pos as int).take(8) =~= data@.subrange(pos as int, pos + 8));
            assert(data@.skip(pos as int).skip(8) =~= data@.skip(pos + 8));
        }
        Some((v, pos + 8))
    } else {
        None
    }
}

// ---------------------------------------------------------------------
// Signed 64-bit integers, cast through u64.
// ---------------------------------------------------------------------
/// The encoding of an `i64`: its two's-complement bits, little endian.
pub open spec fn enc_i64_spec(v: i64) -> Seq<u8> {
    spec_u64_to_le_bytes(v as u64)
}

/// Parses an `i64` from the front of `b`.
pub open spec fn parse_i64(b: Seq<u8>) -> Option<(i64, Seq<u8>)> {
    match parse_u64(b) {
        Some((v, rest)) => Some((v as i64, rest)),
        None => None,
    }
}

/// Parsing undoes encoding for `i64`.
pub proof fn lemma_i64_round(v: i64, rest: Seq<u8>)
    ensures
        parse_i64(enc_i64_spec(v) + rest) == Some((v, rest)),
{
    lemma_u64_round(v as u64, rest);
    assert((v as u64) as i64 == v) by (bit_vector);
}

/// Appends the encoding of `v` to `buf`.
pub fn enc_i64(buf: &mut Vec<u8>, v: i64)
    ensures
        final(buf)@ == old(buf)@ + enc_i64_spec(v),
{
    enc_u64(buf, #[verifier::truncate] (v as u64));
}

/// Decodes an `i64` at position `pos` of `data`.
pub fn dec_i64(data: &Vec<u8>, pos: usize) -> (r: Option<(i64, usize)>)
    requires
        pos <= data@.len(),
    ensures
        match r {
            Some((v, end)) => {
                &&& pos <= end <= data@.len()
                &&& parse_i64(data@.skip(pos as int)) == Some((v, data@.skip(end as int)))
            },
            None => parse_i64(data@.skip(pos as int)) is None,
        },
{
    match dec_u64(data, pos) {
        Some((v, end)) => Some((#[verifier::truncate] (v as i64), end)),
        None => None,
    }
}

// ---------------------------------------------------------------------
// Booleans, one byte.
// ---------------------------------------------------------------------
/// The encoding of a boolean: one byte, zero or one.
pub open spec fn enc_bool_spec(v: bool) -> Seq<u8> {
    if v {
        seq![1u8]
    } else {
        seq![0u8]
    }
}

/// Parses a boolean from the front of `b`; bytes other than zero and one
/// are rejected.
pub open spec fn parse_bool(b: Seq<u8>) -> Option<(bool, Seq<u8>)> {
    if b.len() >= 1 && (b[0] == 0u8 || b[0] == 1u8) {
        Some((b[0] == 1u8, b.skip(1)))
    } else {
        None
    }
}

/// Parsing undoes encoding for booleans.
pub proof fn lemma_bool_round(v: bool, rest: Seq<u8>)
    ensures
        parse_bool(enc_bool_spec(v) + rest) == Some((v, rest)),
{
    assert((enc_bool_spec(v) + rest).skip(1) =~= rest);
}

/// Appends the encoding of `v` to `buf`.
pub fn enc_bool(buf: &mut Vec<u8>, v: bool)
    ensures
        final(buf)@ == old(buf)@ + enc_bool_spec(v),
{
    if v {
        buf.push(1u8);
    } else {
        buf.push(0u8);
    }
    proof {
        assert(buf@ =~= old(buf)@ + enc_bool_spec(v));
    }
}

/// Decodes a boolean at position `pos` of `data`.
pub fn dec_bool(data: &Vec<u8>, pos: usize) -> (r: Option<(bool, usize)>)
    requires
        pos <= data@.len(),
    ensures
        match r {
            Some((v, end)) => {
                &&& pos <= end <= data@.len()
                &&& parse_bool(data@.skip(pos as int)) == Some((v, data@.skip(end as int)))
            },
            None => parse_bool(data@.skip(pos as int)) is None,
        },
{
    if pos < data.len() {
        let byte = data[pos];
        proof {
            assert(data@.skip(pos as int)[0] == data@[pos as int]);
            assert(data@.skip(pos as int).skip(1) =~= data@.skip(pos + 1));
        }
        if byte == 0u8 {
            Some((false, pos + 1))
        } else if byte == 1u8 {
            Some((true, pos + 1))
        } else {
            None
        }
    } else {
        None
    }
}

// ---------------------------------------------------------------------
// Text, length-prefixed UTF-8.
// ---------------------------------------------------------------------
/// The encoding of text: the byte length of its UTF-8 form, then the
/// UTF-8 bytes.
pub open spec fn enc_str_spec(s: Seq<char>) -> Seq<u8> {
    spec_u64_to_le_bytes(encode_utf8(s).len() as u64) + encode_utf8(s)
}

/// Parses text from the front of `b`.
pub open spec fn parse_str(b: Seq<u8>) -> Option<(Seq<char>, Seq<u8>)> {
    match parse_u64(b) {
        Some((n, rest)) => if rest.len() >= n && valid_utf8(rest.take(n as int)) {
            Some((decode_utf8(rest.take(n as int)), rest.skip(n as int)))
        } else {
            None
        },
        None => None,
    }
}

/// Parsing undoes encoding for text whose UTF-8 form fits a `u64` length.
pub proof fn lemma_str_round(s: Seq<char>, rest: Seq<u8>)
    requires
        encode_utf8(s).len() <= u64::MAX,
    ensures
        parse_str(enc_str_spec(s) + rest) == Some((s, rest)),
{
    let bytes = encode_utf8(s);
    let n = bytes.len() as u64;
    assert(enc_str_spec(s) + rest =~= spec_u64_to_le_bytes(n) + (bytes + rest));
    lemma_u64_round(n, bytes + rest);
    assert((bytes + rest).take(n as int) =~= bytes);
    assert((bytes + rest).skip(n as int) =~= rest);
    encode_utf8_valid_utf8(s);
    encode_utf8_decode_utf8(s);
}

/// Relies on `String::from_utf8`: when the bytes are valid UTF-8 it
/// returns the string whose UTF-8 encoding is exactly those bytes, and
/// otherwise it reports an error.
#[verifier::external_body]
fn string_from_utf8(bytes: Vec<u8>) -> (r: Option<String>)
    ensures
        match r {
            Some(s) => valid_utf8(bytes@) && encode_utf8(s@) == bytes@,
            None => !valid_utf8(bytes@),
        },
{
    String::from_utf8(bytes).ok()
}

/// Appends the encoding of `s` to `buf`.
pub fn enc_str(buf: &mut Vec<u8>, s: &str)
    ensures
        final(buf)@ == old(buf)@ + enc_str_spec(s@),
        encode_utf8(s@).len() <= u64::MAX,
{
    let mut bytes = s.as_bytes_vec();
    let n = bytes.len() as u64;
    enc_u64(buf, n);
    buf.append(&mut bytes);
    proof {
        assert(buf@ =~= old(buf)@ + enc_str_spec(s@));
    }
}

/// Decodes text at position `pos` of `data`.
pub fn dec_str(data: &Vec<u8>, pos: usize) -> (r: Option<(String, usize)>)
    requires
        pos <= data@.len(),
    ensures
        match r {
            Some((s, end)) => {
                &&& pos <= end <= data@.len()
                &&& parse_str(data@.skip(pos as int)) == Some((s@, data@.skip(end as int)))
                &&& encode_utf8(s@).len() <= u64::MAX
            },
            None => parse_str(data@.skip(pos as int)) is None,
        },
{
    let ghost tail = data@.skip(pos as int);
    match dec_u64(data, pos) {
        Some((n, mid)) => {
            proof {
                assert(parse_u64(tail) == Some((n, data@.skip(mid as int))));
            }
            if n <= (data.len() - mid) as u64 {
                let end = mid + (n as usize);
                let piece = slice_subrange(data.as_slice(), mid, end);
                let bytes = slice_to_vec(piece);
                proof {
                    assert(bytes@ =~= data@.skip(mid as int).take(n as int));
                    assert(data@.skip(mid as int).skip(n as int) =~= data@.skip(end as int));
                }
                match string_from_utf8(bytes) {
                    Some(s) => {
                        proof {
                            encode_utf8_decode_utf8(s@);
                            assert(decode_utf8(bytes@) == s@);
                        }
                        Some((s, end))
                    },
                    None => None,
                }
            } else {
                None
            }
        },
        None => None,
    }
}

// ---------------------------------------------------------------------
// Lists: a count, then the elements one after another.
// ---------------------------------------------------------------------
/// The concatenated encoding of the elements of a list.
pub open spec fn enc_list_spec<A>(xs: Seq<A>, e: spec_fn(A) -> Seq<u8>) -> Seq<u8>
    decreases xs.len(),
{
    if xs.len() == 0 {
        Seq::empty()
    } else {
        e(xs[0]) + enc_list_spec(xs.skip(1), e)
    }
}

/// Appending one element appends its encoding.
pub proof fn lemma_enc_list_snoc<A>(xs: Seq<A>, x: A, e: spec_fn(A) -> Seq<u8>)
    ensures
        enc_list_spec(xs.push(x), e) == enc_list_spec(xs, e) + e(x),
    decreases xs.len(),
{
    if xs.len() == 0 {
        assert(xs.push(x)[0] == x);
        assert(xs.push(x).skip(1) =~= Seq::<A>::empty());
        assert(enc_list_spec(Seq::<A>::empty(), e) == Seq::<u8>::empty());
        assert(enc_list_spec(xs.push(x), e) =~= e(x));
        assert(enc_list_spec(xs, e) + e(x) =~= e(x));
    } else {
        lemma_enc_list_snoc(xs.skip(1), x, e);
        assert(xs.push(x).skip(1) =~= xs.skip(1).push(x));
        assert(enc_list_spec(xs.push(x), e) == e(xs[0]) + (enc_list_spec(xs.skip(1), e) + e(
            x,
        )));
        assert(e(xs[0]) + (enc_list_spec(xs.skip(1), e) + e(x)) =~= (e(xs[0]) + enc_list_spec(
            xs.skip(1),
            e,
        )) + e(x));
    }
}

/// Parses `n` consecutive elements from the front of `b`.
pub open spec fn parse_list<A>(
    b: Seq<u8>,
    n: nat,
    p: spec_fn(Seq<u8>) -> Option<(A, Seq<u8>)>,
) -> Option<(Seq<A>, Seq<u8>)>
    decreases n,
{
    if n == 0 {
        Some((Seq::empty(), b))
    } else {
        match p(b) {
            Some((x, rest)) => match parse_list(rest, (n - 1) as nat, p) {
                Some((xs, tail)) => Some((seq![x] + xs, tail)),
                None => None,
            },
            None => None,
        }
    }
}

/// Parsing undoes encoding for a list once it does for every element.
pub proof fn lemma_list_round<A>(
    xs: Seq<A>,
    rest: Seq<u8>,
    e: spec_fn(A) -> Seq<u8>,
    p: spec_fn(Seq<u8>) -> Option<(A, Seq<u8>)>,
)
    requires
        forall|i: int, r: Seq<u8>|
            0 <= i < xs.len() ==> #[trigger] p(e(xs[i]) + r) == Some((xs[i], r)),
    ensures
        parse_list(enc_list_spec(xs, e) + rest, xs.len() as nat, p) == Some((xs, rest)),
    decreases xs.len(),
{
    if xs.len() == 0 {
        assert(enc_list_spec(xs, e) + rest =~= rest);
        assert(xs =~= Seq::<A>::empty());
    } else {
        let tail = xs.skip(1);
        let tail_enc = enc_list_spec(tail, e);
        assert(enc_list_spec(xs, e) + rest =~= e(xs[0]) + (tail_enc + rest));
        assert(p(e(xs[0]) + (tail_enc + rest)) == Some((xs[0], tail_enc + rest)));
        assert forall|i: int, r: Seq<u8>|
            0 <= i < tail.len() implies #[trigger] p(e(tail[i]) + r) == Some((tail[i], r)) by {
            assert(tail[i] == xs[i + 1]);
        }
        lemma_list_round(tail, rest, e, p);
        assert(seq![xs[0]] + tail =~= xs);
    }
}

/// The encoding of a list: its length, then the elements.
pub open spec fn enc_counted_spec<A>(xs: Seq<A>, e: spec_fn(A) -> Seq<u8>) -> Seq<u8> {
    spec_u64_to_le_bytes(xs.len() as u64) + enc_list_spec(xs, e)
}

/// Parses a counted list from the front of `b`.
pub open spec fn parse_counted<A>(
    b: Seq<u8>,
    p: spec_fn(Seq<u8>) -> Option<(A, Seq<u8>)>,
) -> Option<(Seq<A>, Seq<u8>)> {
    match parse_u64(b) {
        Some((n, rest)) => parse_list(rest, n as nat, p),
        None => None,
    }
}

/// Parsing undoes encoding for a counted list of fitting length.
pub proof fn lemma_counted_round<A>(
    xs: Seq<A>,
    rest: Seq<u8>,
    e: spec_fn(A) -> Seq<u8>,
    p: spec_fn(Seq<u8>) -> Option<(A, Seq<u8>)>,
)
    requires
        xs.len() <= u64::MAX,
        forall|i: int, r: Seq<u8>|
            0 <= i < xs.len() ==> #[trigger] p(e(xs[i]) + r) == Some((xs[i], r)),
    ensures
        parse_counted(enc_counted_spec(xs, e) + rest, p) == Some((xs, rest)),
{
    let n = xs.len() as u64;
    assert(enc_counted_spec(xs, e) + rest =~= spec_u64_to_le_bytes(n) + (enc_list_spec(xs, e)
        + rest));
    lemma_u64_round(n, enc_list_spec(xs, e) + rest);
    lemma_list_round(xs, rest, e, p);
}

// ---------------------------------------------------------------------
// Lists of text.
// ---------------------------------------------------------------------
/// The abstract values of a list of strings.
pub open spec fn strs_models(xs: Seq<String>) -> Seq<Seq<char>> {
    xs.map(|i: int, s: String| s@)
}

/// The encoder of one string, as a function value.
pub open spec fn str_encoder() -> spec_fn(Seq<char>) -> Seq<u8> {
    |s: Seq<char>| enc_str_spec(s)
}

/// The parser of one string, as a function value.
pub open spec fn str_parser() -> spec_fn(Seq<u8>) -> Option<(Seq<char>, Seq<u8>)> {
    |b: Seq<u8>| parse_str(b)
}

/// Which lists of strings arise at run time: lengths fit their prefixes.
pub open spec fn strs_wf(xs: Seq<Seq<char>>) -> bool {
    &&& xs.len() <= u64::MAX
    &&& forall|i: int| 0 <= i < xs.len() ==> encode_utf8(#[trigger] xs[i]).len() <= u64::MAX
}

/// The encoding of a list of strings: a count, then the strings.
pub open spec fn enc_strs_spec(xs: Seq<Seq<char>>) -> Seq<u8> {
    enc_counted_spec(xs, str_encoder())
}

/// Parses a counted list of strings.
pub open spec fn parse_strs(b: Seq<u8>) -> Option<(Seq<Seq<char>>, Seq<u8>)> {
    parse_counted(b, str_parser())
}

/// Parsing undoes encoding for lists of strings.
pub proof fn lemma_strs_round(xs: Seq<Seq<char>>, rest: Seq<u8>)
    requires
        strs_wf(xs),
    ensures
        parse_strs(enc_strs_spec(xs) + rest) == Some((xs, rest)),
{
    let e = str_encoder();
    let p = str_parser();
    assert forall|i: int, r: Seq<u8>| 0 <= i < xs.len() implies #[trigger] p(e(xs[i]) + r) == Some(
        (xs[i], r),
    ) by {
        assert(str_encoder()(xs[i]) == enc_str_spec(xs[i]));
        assert(str_parser()(enc_str_spec(xs[i]) + r) == parse_str(enc_str_spec(xs[i]) + r));
        lemma_str_round(xs[i], r);
    }
    lemma_counted_round(xs, rest, e, p);
}

/// Appends the encoding of a list of strings to `buf`.
pub fn enc_strs(buf: &mut Vec<u8>, xs: &Vec<String>)
    ensures
        final(buf)@ == old(buf)@ + enc_strs_spec(strs_models(xs@)),
        strs_wf(strs_models(xs@)),
{
    let ghost models = strs_models(xs@);
    let ghost e = str_encoder();
    let ghost base = buf@;
    let n = xs.len();
    enc_u64(buf, n as u64);
    let ghost header = buf@;
    let mut i: usize = 0;
    while i < n
        invariant
            n == xs@.len(),
            i <= n,
            models == strs_models(xs@),
            e == str_encoder(),
            header == base + spec_u64_to_le_bytes(n as u64),
            buf@ == header + enc_list_spec(models.take(i as int), e),
            forall|k: int| 0 <= k < i ==> encode_utf8(#[trigger] models[k]).len() <= u64::MAX,
        decreases n - i,
    {
        enc_str(buf, xs[i].as_str());
        proof {
            assert(models[i as int] == xs@[i as int]@);
            assert(models.take(i + 1) =~= models.take(i as int).push(models[i as int]));
            lemma_enc_list_snoc(models.take(i as int), models[i as int], e);
            assert(str_encoder()(models[i as int]) == enc_str_spec(models[i as int]));
            assert(e(models[i as int]) == enc_str_spec(models[i as int]));
            assert(buf@ =~= header + enc_list_spec(models.take(i + 1), e));
        }
        i = i + 1;
    }
    proof {
        assert(models.take(n as int) =~= models);
        assert(buf@ =~= base + enc_strs_spec(models));
    }
}

/// Decodes a counted list of strings at position `pos` of `data`.
pub fn dec_strs(data: &Vec<u8>, pos: usize) -> (r: Option<(Vec<String>, usize)>)
    requires
        pos <= data@.len(),
    ensures
        r matches Some(q) ==> {
            &&& pos <= q.1 <= data@.len()
            &&& parse_strs(data@.skip(pos as int)) == Some(
                (strs_models(q.0@), data@.skip(q.1 as int)),
            )
            &&& strs_wf(strs_models(q.0@))
        },
        r is None ==> parse_strs(data@.skip(pos as int)) is None,
{
    let ghost p = str_parser();
    let ghost whole = data@.skip(pos as int);
    let count = match dec_u64(data, pos) {
        Some(pair) => pair,
        None => {
            return None;
        },
    };
    let n = count.0;
    let mut cur = count.1;
    let ghost base = data@.skip(cur as int);
    let mut out: Vec<String> = Vec::new();
    let mut i: u64 = 0;
    proof {
        let r0 = parse_list(base, n as nat, p);
        match r0 {
            Some(q) => {
                assert(strs_models(out@) + q.0 =~= q.0);
            },
            None => {},
        }
    }
    while i < n
        invariant
            i <= n,
            pos <= cur <= data@.len(),
            out@.len() == i,
            p == str_parser(),
            whole == data@.skip(pos as int),
            parse_counted(whole, p) == parse_list(base, n as nat, p),
            forall|k: int|
                0 <= k < i ==> encode_utf8(#[trigger] strs_models(out@)[k]).len() <= u64::MAX,
            (match parse_list(data@.skip(cur as int), (n - i) as nat, p) {
                Some(q) => parse_list(base, n as nat, p) == Some((strs_models(out@) + q.0, q.1)),
                None => parse_list(base, n as nat, p) is None,
            }),
        decreases n - i,
    {
        let ghost rem = data@.skip(cur as int);
        let ghost out_before = strs_models(out@);
        let piece = match dec_str(data, cur) {
            Some(pair) => pair,
            None => {
                proof {
                    assert(str_parser()(rem) == parse_str(rem));
                    assert(p(rem) is None);
                    assert(parse_list(rem, (n - i) as nat, p) is None);
                }
                return None;
            },
        };
        let ghost piece_chars = piece.0@;
        out.push(piece.0);
        cur = piece.1;
        proof {
            assert(str_parser()(rem) == parse_str(rem));
            assert(p(rem) == Some((piece_chars, data@.skip(cur as int))));
            assert(strs_models(out@) =~= out_before.push(piece_chars));
            let r1 = parse_list(data@.skip(cur as int), (n - i - 1) as nat, p);
            match r1 {
                Some(q) => {
                    assert(parse_list(rem, (n - i) as nat, p) == Some(
                        (seq![piece_chars] + q.0, q.1),
                    ));
                    assert(out_before + (seq![piece_chars] + q.0) =~= strs_models(out@) + q.0);
                },
                None => {
                    assert(parse_list(rem, (n - i) as nat, p) is None);
                },
            }
        }
        i = i + 1;
    }
    proof {
        assert(parse_list(data@.skip(cur as int), 0, p) == Some(
            (Seq::<Seq<char>>::empty(), data@.skip(cur as int)),
        ));
        assert(strs_models(out@) + Seq::<Seq<char>>::empty() =~= strs_models(out@));
    }
    Some((out, cur))
}

} // verus!
