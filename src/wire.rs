//! Little-endian integers and length-prefixed text, over in-memory bytes.
use crate::error::OpenRGBError;
use vstd::prelude::*;
use vstd::slice::slice_subrange;
use vstd::slice::slice_to_vec;
use vstd::utf8::decode_utf8;
use vstd::utf8::encode_utf8;
use vstd::utf8::encode_utf8_decode_utf8;
use vstd::utf8::encode_utf8_valid_utf8;
use vstd::utf8::valid_utf8;

verus! {

/// The outcome of reading a value at a position: the value and the position
/// just after it, or the error that stopped the read.
pub type Parsed<T> = Result<(T, int), OpenRGBError>;

/// An executable read result agrees with the spec-level read.
pub open spec fn agrees<T: View>(r: Result<(T, usize), OpenRGBError>, p: Parsed<T::V>) -> bool {
    match r {
        Ok((v, q)) => p == Ok::<(T::V, int), OpenRGBError>((v@, q as int)),
        Err(e) => p == Err::<(T::V, int), OpenRGBError>(e),
    }
}

/// `e` stands in `s` starting at position `p`.
pub open spec fn bytes_at(s: Seq<u8>, p: int, e: Seq<u8>) -> bool {
    &&& 0 <= p
    &&& p + e.len() <= s.len()
    &&& s.subrange(p, p + e.len()) == e
}

pub proof fn lemma_bytes_at_concat(s: Seq<u8>, p: int, a: Seq<u8>, b: Seq<u8>)
    requires
        bytes_at(s, p, a + b),
    ensures
        bytes_at(s, p, a),
        bytes_at(s, p + a.len(), b),
{
    let w = s.subrange(p, p + a.len() + b.len());
    assert(w == a + b);
    assert(s.subrange(p, p + a.len()) =~= w.subrange(0, a.len() as int));
    assert(a =~= (a + b).subrange(0, a.len() as int));
    assert(s.subrange(p + a.len(), p + a.len() + b.len()) =~= w.subrange(
        a.len() as int,
        (a.len() + b.len()) as int,
    ));
    assert(b =~= (a + b).subrange(a.len() as int, (a.len() + b.len()) as int));
}

pub proof fn lemma_bytes_at_index(s: Seq<u8>, p: int, e: Seq<u8>, i: int)
    requires
        bytes_at(s, p, e),
        0 <= i < e.len(),
    ensures
        s[p + i] == e[i],
{
    assert(s.subrange(p, p + e.len())[i] == s[p + i]);
}

pub open spec fn u16_le(v: u16) -> Seq<u8> {
    seq![(v % 256) as u8, (v / 256) as u8]
}

pub open spec fn u32_le(v: u32) -> Seq<u8> {
    seq![
        (v % 256) as u8,
        ((v / 256) % 256) as u8,
        ((v / 65536) % 256) as u8,
        (v / 16777216) as u8,
    ]
}

/// A signed value travels as its two's-complement bit pattern.
pub open spec fn i32_le(v: i32) -> Seq<u8> {
    u32_le(v as u32)
}

/// A text value fits the `u16` byte count that precedes it.
pub open spec fn text_fits(t: Seq<char>) -> bool {
    encode_utf8(t).len() <= 65535
}

/// A `u16` byte count followed by the UTF-8 bytes, with no terminator.
pub open spec fn text_le(t: Seq<char>) -> Seq<u8> {
    u16_le(encode_utf8(t).len() as u16) + encode_utf8(t)
}

pub open spec fn u8_at(s: Seq<u8>, p: int) -> Parsed<u8> {
    if 0 <= p && p + 1 <= s.len() {
        Ok((s[p], p + 1))
    } else {
        Err(OpenRGBError::UnexpectedEndOfData)
    }
}

/// The little-endian `u16` stored at `p`.
pub open spec fn u16_val(s: Seq<u8>, p: int) -> u16 {
    (s[p] + 256 * s[p + 1]) as u16
}

/// The little-endian `u32` stored at `p`.
pub open spec fn u32_val(s: Seq<u8>, p: int) -> u32 {
    (s[p] + 256 * s[p + 1] + 65536 * s[p + 2] + 16777216 * s[p + 3]) as u32
}

/// `n` bytes are left in `s` from position `p` on.
pub open spec fn avail(s: Seq<u8>, p: int, n: int) -> bool {
    0 <= p && p + n <= s.len()
}

pub open spec fn u16_at(s: Seq<u8>, p: int) -> Parsed<u16> {
    if 0 <= p && p + 2 <= s.len() {
        Ok((u16_val(s, p), p + 2))
    } else {
        Err(OpenRGBError::UnexpectedEndOfData)
    }
}

pub open spec fn u32_at(s: Seq<u8>, p: int) -> Parsed<u32> {
    if 0 <= p && p + 4 <= s.len() {
        Ok((u32_val(s, p), p + 4))
    } else {
        Err(OpenRGBError::UnexpectedEndOfData)
    }
}

pub open spec fn i32_at(s: Seq<u8>, p: int) -> Parsed<i32> {
    match u32_at(s, p) {
        Ok((v, q)) => Ok((v as i32, q)),
        Err(e) => Err(e),
    }
}

/// Reads a byte count, then that many bytes, which must be UTF-8.
pub open spec fn text_at(s: Seq<u8>, p: int) -> Parsed<Seq<char>> {
    match u16_at(s, p) {
        Ok((n, q)) => if q + n > s.len() {
            Err(OpenRGBError::UnexpectedEndOfData)
        } else if !valid_utf8(s.subrange(q, q + n)) {
            Err(OpenRGBError::MalformedText)
        } else {
            Ok((decode_utf8(s.subrange(q, q + n)), q + n))
        },
        Err(e) => Err(e),
    }
}

pub proof fn lemma_u16_round_trip(s: Seq<u8>, p: int, v: u16)
    requires
        bytes_at(s, p, u16_le(v)),
    ensures
        u16_at(s, p) == Ok::<(u16, int), OpenRGBError>((v, p + 2)),
{
    lemma_bytes_at_index(s, p, u16_le(v), 0);
    lemma_bytes_at_index(s, p, u16_le(v), 1);
}

pub proof fn lemma_u32_round_trip(s: Seq<u8>, p: int, v: u32)
    requires
        bytes_at(s, p, u32_le(v)),
    ensures
        u32_at(s, p) == Ok::<(u32, int), OpenRGBError>((v, p + 4)),
{
    lemma_bytes_at_index(s, p, u32_le(v), 0);
    lemma_bytes_at_index(s, p, u32_le(v), 1);
    lemma_bytes_at_index(s, p, u32_le(v), 2);
    lemma_bytes_at_index(s, p, u32_le(v), 3);
}

pub proof fn lemma_i32_round_trip(s: Seq<u8>, p: int, v: i32)
    requires
        bytes_at(s, p, i32_le(v)),
    ensures
        i32_at(s, p) == Ok::<(i32, int), OpenRGBError>((v, p + 4)),
{
    lemma_u32_round_trip(s, p, v as u32);
    assert((v as u32) as i32 == v) by (bit_vector);
}

pub proof fn lemma_text_round_trip(s: Seq<u8>, p: int, t: Seq<char>)
    requires
        text_fits(t),
        bytes_at(s, p, text_le(t)),
    ensures
        text_at(s, p) == Ok::<(Seq<char>, int), OpenRGBError>(
            (t, p + text_le(t).len()),
        ),
{
    broadcast use encode_utf8_valid_utf8, encode_utf8_decode_utf8;

    let n = encode_utf8(t).len() as u16;
    lemma_bytes_at_concat(s, p, u16_le(n), encode_utf8(t));
    lemma_u16_round_trip(s, p, n);
}

/// Reads `n` items one after the other, each with `item`.
pub open spec fn many_at<V>(
    item: spec_fn(Seq<u8>, int) -> Parsed<V>,
    s: Seq<u8>,
    p: int,
    n: nat,
) -> Parsed<Seq<V>>
    decreases n,
{
    if n == 0 {
        Ok((Seq::empty(), p))
    } else {
        match many_at(item, s, p, (n - 1) as nat) {
            Ok((xs, q)) => match item(s, q) {
                Ok((x, r)) => Ok((xs.push(x), r)),
                Err(e) => Err(e),
            },
            Err(e) => Err(e),
        }
    }
}

/// The encodings of the items of `xs`, one after the other.
pub open spec fn concat_all<V>(enc: spec_fn(V) -> Seq<u8>, xs: Seq<V>) -> Seq<u8>
    decreases xs.len(),
{
    if xs.len() == 0 {
        Seq::empty()
    } else {
        concat_all(enc, xs.drop_last()) + enc(xs.last())
    }
}

pub open spec fn u32s_at(s: Seq<u8>, p: int, n: nat) -> Parsed<Seq<u32>> {
    many_at(|s: Seq<u8>, p: int| u32_at(s, p), s, p, n)
}

/// Raw `u32` cells with no count before them.
pub open spec fn u32s_le(xs: Seq<u32>) -> Seq<u8> {
    concat_all(|x: u32| u32_le(x), xs)
}

/// A successful read of `n` items holds `n` items.
pub proof fn lemma_many_len<V>(item: spec_fn(Seq<u8>, int) -> Parsed<V>, s: Seq<u8>, p: int, n: nat)
    requires
        many_at(item, s, p, n) is Ok,
    ensures
        many_at(item, s, p, n)->Ok_0.0.len() == n,
    decreases n,
{
    if n > 0 {
        lemma_many_len(item, s, p, (n - 1) as nat);
    }
}

/// Items that each read back from their encoding read back as a sequence.
pub proof fn lemma_many_round_trip<V>(
    item: spec_fn(Seq<u8>, int) -> Parsed<V>,
    enc: spec_fn(V) -> Seq<u8>,
    xs: Seq<V>,
    s: Seq<u8>,
    p: int,
)
    requires
        forall|i: int, q: int|
            0 <= i < xs.len() && #[trigger] bytes_at(s, q, enc(xs[i])) ==> item(s, q) == Ok::<
                (V, int),
                OpenRGBError,
            >((xs[i], q + enc(xs[i]).len())),
        bytes_at(s, p, concat_all(enc, xs)),
    ensures
        many_at(item, s, p, xs.len()) == Ok::<(Seq<V>, int), OpenRGBError>(
            (xs, p + concat_all(enc, xs).len()),
        ),
    decreases xs.len(),
{
    if xs.len() > 0 {
        let init = xs.drop_last();
        lemma_bytes_at_concat(s, p, concat_all(enc, init), enc(xs.last()));
        assert forall|i: int, q: int|
            0 <= i < init.len() && #[trigger] bytes_at(s, q, enc(init[i])) implies item(s, q)
                == Ok::<(V, int), OpenRGBError>((init[i], q + enc(init[i]).len())) by {
            assert(init[i] == xs[i]);
        }
        lemma_many_round_trip(item, enc, init, s, p);
        assert(init.push(xs.last()) =~= xs);
        let q = p + concat_all(enc, init).len();
        assert(bytes_at(s, q, enc(xs[xs.len() - 1])));
        assert(item(s, q) == Ok::<(V, int), OpenRGBError>(
            (xs[xs.len() - 1], q + enc(xs[xs.len() - 1]).len()),
        ));
        assert(((xs.len() - 1) as nat) == init.len());
    } else {
        assert(xs =~= Seq::<V>::empty());
    }
}

/// Once a read of items has failed, reading more items fails the same way.
pub proof fn lemma_many_err_extends<V>(
    item: spec_fn(Seq<u8>, int) -> Parsed<V>,
    s: Seq<u8>,
    p: int,
    i: nat,
    n: nat,
)
    requires
        i <= n,
        many_at(item, s, p, i) is Err,
    ensures
        many_at(item, s, p, n) == many_at(item, s, p, i),
    decreases n - i,
{
    if i < n {
        lemma_many_err_extends(item, s, p, i, (n - 1) as nat);
    }
}

pub proof fn lemma_u32s_len(xs: Seq<u32>)
    ensures
        u32s_le(xs).len() == 4 * xs.len(),
    decreases xs.len(),
{
    if xs.len() > 0 {
        lemma_u32s_len(xs.drop_last());
    }
}

pub proof fn lemma_u32s_round_trip(s: Seq<u8>, p: int, xs: Seq<u32>)
    requires
        bytes_at(s, p, u32s_le(xs)),
    ensures
        u32s_at(s, p, xs.len()) == Ok::<(Seq<u32>, int), OpenRGBError>(
            (xs, p + 4 * xs.len()),
        ),
{
    let item = |s: Seq<u8>, p: int| u32_at(s, p);
    let enc = |x: u32| u32_le(x);
    assert forall|i: int, q: int|
        0 <= i < xs.len() && #[trigger] bytes_at(s, q, enc(xs[i])) implies item(s, q) == Ok::<
            (u32, int),
            OpenRGBError,
        >((xs[i], q + enc(xs[i]).len())) by {
        lemma_u32_round_trip(s, q, xs[i]);
    }
    lemma_many_round_trip(item, enc, xs, s, p);
    lemma_u32s_len(xs);
}

/// The outcome of an append that is refused, leaving `after` equal to
/// `before`, unless `fits` holds.
pub open spec fn wrote(
    r: Result<(), OpenRGBError>,
    before: Seq<u8>,
    after: Seq<u8>,
    fits: bool,
    bytes: Seq<u8>,
) -> bool {
    if fits {
        r is Ok && after == before + bytes
    } else {
        r == Err::<(), OpenRGBError>(OpenRGBError::InputTooLarge) && after == before
    }
}

/// Appends one byte.
pub fn put_u8(out: &mut Vec<u8>, v: u8)
    ensures
        final(out)@ == old(out)@.push(v),
{
    out.push(v);
}

/// Appends `v` as two little-endian bytes.
pub fn put_u16(out: &mut Vec<u8>, v: u16)
    ensures
        final(out)@ == old(out)@ + u16_le(v),
{
    out.push((v % 256) as u8);
    out.push((v / 256) as u8);
    assert(out@ =~= old(out)@ + u16_le(v));
}

/// Appends `v` as four little-endian bytes.
pub fn put_u32(out: &mut Vec<u8>, v: u32)
    ensures
        final(out)@ == old(out)@ + u32_le(v),
{
    out.push((v % 256) as u8);
    out.push(((v / 256) % 256) as u8);
    out.push(((v / 65536) % 256) as u8);
    out.push((v / 16777216) as u8);
    assert(out@ =~= old(out)@ + u32_le(v));
}

/// Appends the two's-complement bit pattern of `v`, little-endian.
pub fn put_i32(out: &mut Vec<u8>, v: i32)
    ensures
        final(out)@ == old(out)@ + i32_le(v),
{
    put_u32(out, v as u32);
}

/// Appends `t` as a byte count and its UTF-8 bytes; a text whose byte
/// count does not fit in `u16` is refused and `out` is left as it was.
pub fn put_text(out: &mut Vec<u8>, t: &String) -> (r: Result<(), OpenRGBError>)
    ensures
        wrote(r, old(out)@, final(out)@, text_fits(t@), text_le(t@)),
{
    let bytes = t.as_str().as_bytes();
    if bytes.len() > 65535 {
        return Err(OpenRGBError::InputTooLarge);
    }
    put_u16(out, bytes.len() as u16);
    let mut tail = slice_to_vec(bytes);
    out.append(&mut tail);
    assert(out@ =~= old(out)@ + text_le(t@));
    Ok(())
}

/// Appends each value of `xs` as four little-endian bytes, with no count.
pub fn put_u32s(out: &mut Vec<u8>, xs: &Vec<u32>)
    ensures
        final(out)@ == old(out)@ + u32s_le(xs@),
{
    let mut i: usize = 0;
    while i < xs.len()
        invariant
            i <= xs.len(),
            out@ == old(out)@ + u32s_le(xs@.subrange(0, i as int)),
        decreases xs.len() - i,
    {
        put_u32(out, xs[i]);
        proof {
            let next = xs@.subrange(0, i + 1);
            assert(next.drop_last() =~= xs@.subrange(0, i as int));
            assert(out@ =~= old(out)@ + u32s_le(next));
        }
        i += 1;
    }
    assert(xs@.subrange(0, xs.len() as int) =~= xs@);
}

/// Reads `n` little-endian `u32` cells starting at `pos`.
pub fn get_u32s(data: &[u8], pos: usize, n: usize) -> (r: Result<(Vec<u32>, usize), OpenRGBError>)
    ensures
        agrees(r, u32s_at(data@, pos as int, n as nat)),
{
    let mut xs: Vec<u32> = Vec::new();
    let mut at = pos;
    let mut i: usize = 0;
    while i < n
        invariant
            i <= n,
            u32s_at(data@, pos as int, i as nat) == Ok::<(Seq<u32>, int), OpenRGBError>(
                (xs@, at as int),
            ),
        decreases n - i,
    {
        let (x, next) = match get_u32(data, at) {
            Ok(v) => v,
            Err(e) => {
                proof {
                    lemma_many_err_extends(
                        |s: Seq<u8>, p: int| u32_at(s, p),
                        data@,
                        pos as int,
                        (i + 1) as nat,
                        n as nat,
                    );
                }
                return Err(e);
            },
        };
        xs.push(x);
        at = next;
        i += 1;
    }
    Ok((xs, at))
}

/// The `u16` at `pos`, which the caller knows to be in bounds.
pub fn read_u16(data: &[u8], pos: usize) -> (r: u16)
    requires
        avail(data@, pos as int, 2),
    ensures
        r == u16_val(data@, pos as int),
{
    data[pos] as u16 + 256 * (data[pos + 1] as u16)
}

/// The `u32` at `pos`, which the caller knows to be in bounds.
pub fn read_u32(data: &[u8], pos: usize) -> (r: u32)
    requires
        avail(data@, pos as int, 4),
    ensures
        r == u32_val(data@, pos as int),
{
    data[pos] as u32 + 256 * (data[pos + 1] as u32) + 65536 * (data[pos + 2] as u32) + 16777216
        * (data[pos + 3] as u32)
}

/// Reads one byte at `pos`.
pub fn get_u8(data: &[u8], pos: usize) -> (r: Result<(u8, usize), OpenRGBError>)
    ensures
        agrees(r, u8_at(data@, pos as int)),
{
    if pos >= data.len() {
        return Err(OpenRGBError::UnexpectedEndOfData);
    }
    Ok((data[pos], pos + 1))
}

/// Reads a little-endian `u16` at `pos`.
pub fn get_u16(data: &[u8], pos: usize) -> (r: Result<(u16, usize), OpenRGBError>)
    ensures
        agrees(r, u16_at(data@, pos as int)),
{
    if pos > data.len() || data.len() - pos < 2 {
        return Err(OpenRGBError::UnexpectedEndOfData);
    }
    Ok((read_u16(data, pos), pos + 2))
}

/// Reads a little-endian `u32` at `pos`.
pub fn get_u32(data: &[u8], pos: usize) -> (r: Result<(u32, usize), OpenRGBError>)
    ensures
        agrees(r, u32_at(data@, pos as int)),
{
    if pos > data.len() || data.len() - pos < 4 {
        return Err(OpenRGBError::UnexpectedEndOfData);
    }
    Ok((read_u32(data, pos), pos + 4))
}

/// Reads a little-endian two's-complement `i32` at `pos`.
pub fn get_i32(data: &[u8], pos: usize) -> (r: Result<(i32, usize), OpenRGBError>)
    ensures
        agrees(r, i32_at(data@, pos as int)),
{
    let (v, next) = get_u32(data, pos)?;
    Ok((v as i32, next))
}

/// Reads a length-prefixed UTF-8 text at `pos`.
pub fn get_text(data: &[u8], pos: usize) -> (r: Result<(String, usize), OpenRGBError>)
    ensures
        agrees(r, text_at(data@, pos as int)),
{
    let (n, start) = get_u16(data, pos)?;
    let n = n as usize;
    if data.len() - start < n {
        return Err(OpenRGBError::UnexpectedEndOfData);
    }
    let raw = slice_to_vec(slice_subrange(data, start, start + n));
    match utf8_text(raw) {
        Some(t) => Ok((t, start + n)),
        None => Err(OpenRGBError::MalformedText),
    }
}

/// Relies on `String::from_utf8`: it succeeds exactly on valid UTF-8, and the
/// text it returns is the one those bytes encode.
#[verifier::external_body]
pub(crate) fn utf8_text(bytes: Vec<u8>) -> (r: Option<String>)
    ensures
        r is Some <==> valid_utf8(bytes@),
        r is Some ==> r->0@ == decode_utf8(bytes@),
{
    String::from_utf8(bytes).ok()
}

} // verus!
