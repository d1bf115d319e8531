use vstd::prelude::*;
use vstd::utf8::{decode_utf8, encode_utf8, encode_utf8_decode_utf8, encode_utf8_valid_utf8, valid_utf8};
use crate::record::{Alloc, categories_view};

verus! {

/// The first byte of every blob; a reader refuses any other.
pub const BLOB_VERSION: u8 = 1;

pub open spec fn u32_le(x: u32) -> Seq<u8> {
    seq![(x & 0xff) as u8, ((x >> 8u32) & 0xff) as u8, ((x >> 16u32) & 0xff) as u8, ((x >> 24u32) & 0xff) as u8]
}

pub open spec fn u32_at(b: Seq<u8>, p: int) -> u32 {
    (b[p] as u32) | ((b[p + 1] as u32) << 8u32) | ((b[p + 2] as u32) << 16u32) | ((b[p + 3] as u32) << 24u32)
}

/// Blob of an allocation: the version byte, then rate bits and flat amount, little-endian.
pub open spec fn alloc_bytes(a: Alloc) -> Seq<u8> {
    seq![BLOB_VERSION] + u32_le(a.rate_bits) + u32_le(a.flat)
}

pub open spec fn entry_bytes(k: Seq<char>, a: Alloc) -> Seq<u8> {
    u32_le(encode_utf8(k).len() as u32) + encode_utf8(k) + u32_le(a.rate_bits) + u32_le(a.flat)
}

pub open spec fn entries_bytes(c: Seq<(Seq<char>, Alloc)>) -> Seq<u8>
    decreases c.len(),
{
    if c.len() == 0 {
        Seq::empty()
    } else {
        entry_bytes(c[0].0, c[0].1) + entries_bytes(c.drop_first())
    }
}

/// Blob of a category mapping: the version byte, then each entry as the byte
/// length of its name, the name in UTF-8, and its allocation.
pub open spec fn categories_bytes(c: Seq<(Seq<char>, Alloc)>) -> Seq<u8> {
    seq![BLOB_VERSION] + entries_bytes(c)
}

/// Whether every category name fits the length field of the encoding.
pub open spec fn names_fit(c: Seq<(Seq<char>, Alloc)>) -> bool {
    forall|i: int| 0 <= i < c.len() ==> encode_utf8(#[trigger] c[i].0).len() <= u32::MAX
}

pub open spec fn decode_alloc(b: Seq<u8>) -> Option<Alloc> {
    if b.len() == 9 && b[0] == BLOB_VERSION {
        Some(Alloc { rate_bits: u32_at(b, 1), flat: u32_at(b, 5) })
    } else {
        None
    }
}

pub open spec fn decode_entries(b: Seq<u8>) -> Option<Seq<(Seq<char>, Alloc)>>
    decreases b.len(),
{
    if b.len() == 0 {
        Some(Seq::empty())
    } else if b.len() < 4 {
        None
    } else {
        let n = u32_at(b, 0) as int;
        if b.len() < 12 + n {
            None
        } else {
            let name = b.subrange(4, 4 + n);
            if !valid_utf8(name) {
                None
            } else {
                let a = Alloc { rate_bits: u32_at(b, 4 + n), flat: u32_at(b, 8 + n) };
                match decode_entries(b.subrange(12 + n, b.len() as int)) {
                    Some(rest) => Some(seq![(decode_utf8(name), a)] + rest),
                    None => None,
                }
            }
        }
    }
}

pub open spec fn decode_categories(b: Seq<u8>) -> Option<Seq<(Seq<char>, Alloc)>> {
    if b.len() >= 1 && b[0] == BLOB_VERSION {
        decode_entries(b.subrange(1, b.len() as int))
    } else {
        None
    }
}

proof fn lemma_u32_le(x: u32, rest: Seq<u8>)
    ensures
        (u32_le(x) + rest).len() == rest.len() + 4,
        u32_at(u32_le(x) + rest, 0) == x,
{
    let b = u32_le(x) + rest;
    assert(b[0] == (x & 0xff) as u8);
    assert(b[1] == ((x >> 8u32) & 0xff) as u8);
    assert(b[2] == ((x >> 16u32) & 0xff) as u8);
    assert(b[3] == ((x >> 24u32) & 0xff) as u8);
    assert(((((x & 0xff) as u8) as u32) | (((((x >> 8u32) & 0xff) as u8) as u32) << 8u32) | (
    ((((x >> 16u32) & 0xff) as u8) as u32) << 16u32) | (((((x >> 24u32) & 0xff) as u8) as u32)
        << 24u32)) == x) by (bit_vector);
}

/// Decoding an allocation's blob gives the allocation back.
pub proof fn lemma_alloc_round_trip(a: Alloc)
    ensures
        decode_alloc(alloc_bytes(a)) == Some(a),
{
    let b = alloc_bytes(a);
    lemma_u32_le(a.rate_bits, u32_le(a.flat));
    lemma_u32_le(a.flat, Seq::empty());
    assert(b.subrange(1, 9) =~= u32_le(a.rate_bits) + u32_le(a.flat));
    assert(b.subrange(5, 9) =~= u32_le(a.flat) + Seq::<u8>::empty());
    assert(u32_at(b, 1) == u32_at(b.subrange(1, 9), 0));
    assert(u32_at(b, 5) == u32_at(b.subrange(5, 9), 0));
}

proof fn lemma_entries_round_trip(c: Seq<(Seq<char>, Alloc)>)
    requires
        names_fit(c),
    ensures
        decode_entries(entries_bytes(c)) == Some(c),
    decreases c.len(),
{
    if c.len() == 0 {
        assert(decode_entries(entries_bytes(c)) == Some(Seq::<(Seq<char>, Alloc)>::empty()));
        assert(c =~= Seq::<(Seq<char>, Alloc)>::empty());
    } else {
        let k = c[0].0;
        let a = c[0].1;
        let tail = c.drop_first();
        assert(names_fit(tail)) by {
            assert forall|i: int| 0 <= i < tail.len() implies encode_utf8(
                #[trigger] tail[i].0,
            ).len() <= u32::MAX by {
                assert(tail[i] == c[i + 1]);
            }
        }
        lemma_entries_round_trip(tail);
        let kb = encode_utf8(k);
        assert(kb.len() <= u32::MAX) by {
            assert(c[0].0 == k);
        }
        let n = kb.len() as int;
        let rest = entries_bytes(tail);
        let b = entries_bytes(c);
        let tail_bytes = kb + u32_le(a.rate_bits) + u32_le(a.flat) + rest;
        assert(b =~= u32_le(kb.len() as u32) + tail_bytes);
        lemma_u32_le(kb.len() as u32, tail_bytes);
        assert(u32_at(b, 0) as int == n);
        assert(b.subrange(4, 4 + n) =~= kb);
        encode_utf8_valid_utf8(k);
        encode_utf8_decode_utf8(k);
        let after = u32_le(a.rate_bits) + u32_le(a.flat) + rest;
        assert(b.subrange(4 + n, b.len() as int) =~= after);
        lemma_u32_le(a.rate_bits, u32_le(a.flat) + rest);
        assert(after =~= u32_le(a.rate_bits) + (u32_le(a.flat) + rest));
        assert(u32_at(b, 4 + n) == u32_at(after, 0));
        lemma_u32_le(a.flat, rest);
        assert(b.subrange(8 + n, b.len() as int) =~= u32_le(a.flat) + rest);
        assert(u32_at(b, 8 + n) == u32_at(b.subrange(8 + n, b.len() as int), 0));
        assert(b.subrange(12 + n, b.len() as int) =~= rest);
        assert(seq![(k, a)] + tail =~= c);
    }
}

/// Decoding a category mapping's blob gives the mapping back.
pub proof fn lemma_categories_round_trip(c: Seq<(Seq<char>, Alloc)>)
    requires
        names_fit(c),
    ensures
        decode_categories(categories_bytes(c)) == Some(c),
{
    let b = categories_bytes(c);
    assert(b.subrange(1, b.len() as int) =~= entries_bytes(c));
    lemma_entries_round_trip(c);
}

proof fn lemma_entries_push(c: Seq<(Seq<char>, Alloc)>, k: Seq<char>, a: Alloc)
    ensures
        entries_bytes(c.push((k, a))) == entries_bytes(c) + entry_bytes(k, a),
    decreases c.len(),
{
    reveal_with_fuel(entries_bytes, 2);
    if c.len() == 0 {
        assert(c.push((k, a)).drop_first() =~= Seq::<(Seq<char>, Alloc)>::empty());
        assert(entries_bytes(c.push((k, a))) =~= entry_bytes(k, a) + Seq::<u8>::empty());
        assert(entries_bytes(c) + entry_bytes(k, a) =~= entry_bytes(k, a));
    } else {
        lemma_entries_push(c.drop_first(), k, a);
        assert(c.push((k, a)).drop_first() =~= c.drop_first().push((k, a)));
        assert(entries_bytes(c.push((k, a))) =~= entry_bytes(c[0].0, c[0].1) + (entries_bytes(
            c.drop_first(),
        ) + entry_bytes(k, a)));
    }
}

fn push_u32_le(out: &mut Vec<u8>, x: u32)
    ensures
        final(out)@ == old(out)@ + u32_le(x),
{
    out.push((x & 0xff) as u8);
    out.push(((x >> 8u32) & 0xff) as u8);
    out.push(((x >> 16u32) & 0xff) as u8);
    out.push(((x >> 24u32) & 0xff) as u8);
    assert(final(out)@ =~= old(out)@ + u32_le(x));
}

fn read_u32_le(b: &Vec<u8>, p: usize) -> (r: u32)
    requires
        p + 4 <= b@.len(),
    ensures
        r == u32_at(b@, p as int),
{
    let len: usize = b.len();
    assert(p + 4 <= len);
    let x0 = b[p] as u32;
    let x1 = b[p + 1] as u32;
    let x2 = b[p + 2] as u32;
    let x3 = b[p + 3] as u32;
    assert(x1 <= 255 ==> (x1 << 8u32) >> 8u32 == x1) by (bit_vector);
    assert(x2 <= 255 ==> (x2 << 16u32) >> 16u32 == x2) by (bit_vector);
    assert(x3 <= 255 ==> (x3 << 24u32) >> 24u32 == x3) by (bit_vector);
    x0 | (x1 << 8u32) | (x2 << 16u32) | (x3 << 24u32)
}

/// Encodes an allocation as a blob.
pub fn encode_alloc(a: Alloc) -> (r: Vec<u8>)
    ensures
        r@ == alloc_bytes(a),
{
    let mut out: Vec<u8> = Vec::new();
    out.push(BLOB_VERSION);
    push_u32_le(&mut out, a.rate_bits);
    push_u32_le(&mut out, a.flat);
    assert(out@ =~= alloc_bytes(a));
    out
}

/// Reads an allocation back from its blob; `None` for a blob of another shape or version.
pub fn decode_alloc_blob(b: &Vec<u8>) -> (r: Option<Alloc>)
    ensures
        r == decode_alloc(b@),
{
    if b.len() == 9 && b[0] == BLOB_VERSION {
        Some(Alloc { rate_bits: read_u32_le(b, 1), flat: read_u32_le(b, 5) })
    } else {
        None
    }
}

/// Encodes a category mapping as a blob; `None` when a name is longer than the
/// length field can say.
pub fn encode_categories(c: &Vec<(String, Alloc)>) -> (r: Option<Vec<u8>>)
    ensures
        r.is_some() <==> names_fit(categories_view(c@)),
        r matches Some(v) ==> v@ == categories_bytes(categories_view(c@)),
{
    let ghost cv = categories_view(c@);
    let mut out: Vec<u8> = Vec::new();
    out.push(BLOB_VERSION);
    let mut i: usize = 0;
    while i < c.len()
        invariant
            i <= c@.len(),
            cv == categories_view(c@),
            cv.len() == c@.len(),
            names_fit(cv.take(i as int)),
            out@ == seq![BLOB_VERSION] + entries_bytes(cv.take(i as int)),
        decreases c@.len() - i,
    {
        let bytes = c[i].0.as_str().as_bytes();
        assert(cv[i as int] == (c@[i as int].0@, c@[i as int].1));
        if bytes.len() > u32::MAX as usize {
            assert(encode_utf8(cv[i as int].0).len() > u32::MAX);
            return None;
        }
        let ghost before = out@;
        push_u32_le(&mut out, bytes.len() as u32);
        let mut j: usize = 0;
        while j < bytes.len()
            invariant
                j <= bytes@.len(),
                out@ == before + u32_le(bytes@.len() as u32) + bytes@.take(j as int),
            decreases bytes@.len() - j,
        {
            out.push(bytes[j]);
            j = j + 1;
            assert(out@ =~= before + u32_le(bytes@.len() as u32) + bytes@.take(j as int));
        }
        push_u32_le(&mut out, c[i].1.rate_bits);
        push_u32_le(&mut out, c[i].1.flat);
        proof {
            assert(bytes@.take(j as int) =~= bytes@);
            lemma_entries_push(cv.take(i as int), cv[i as int].0, cv[i as int].1);
            assert(cv.take(i + 1) =~= cv.take(i as int).push((cv[i as int].0, cv[i as int].1)));
            assert(out@ =~= seq![BLOB_VERSION] + entries_bytes(cv.take(i + 1)));
            assert forall|k: int| 0 <= k < i + 1 implies encode_utf8(
                #[trigger] cv.take(i + 1)[k].0,
            ).len() <= u32::MAX by {
                if k < i {
                    assert(cv.take(i + 1)[k] == cv.take(i as int)[k]);
                }
            }
        }
        i = i + 1;
    }
    assert(cv.take(i as int) =~= cv);
    Some(out)
}

/// Relies on `String::from_utf8`: it succeeds exactly on valid UTF-8, and the
/// string then holds the characters that the bytes encode.
#[verifier::external_body]
fn string_from_utf8(b: Vec<u8>) -> (r: Option<String>)
    ensures
        r.is_some() <==> valid_utf8(b@),
        r matches Some(s) ==> s@ == decode_utf8(b@),
{
    String::from_utf8(b).ok()
}

/// Reads a category mapping back from its blob; `None` for a malformed blob.
pub fn decode_categories_blob(b: &Vec<u8>) -> (r: Option<Vec<(String, Alloc)>>)
    ensures
        match r {
            Some(v) => decode_categories(b@) == Some(categories_view(v@)),
            None => decode_categories(b@) == None::<Seq<(Seq<char>, Alloc)>>,
        },
{
    if b.len() == 0 || b[0] != BLOB_VERSION {
        return None;
    }
    let mut out: Vec<(String, Alloc)> = Vec::new();
    let mut pos: usize = 1;
    while pos < b.len()
        invariant
            1 <= pos <= b@.len(),
            b@.len() >= 1 && b@[0] == BLOB_VERSION,
            decode_categories(b@) == match decode_entries(b@.subrange(pos as int, b@.len() as int)) {
                Some(rest) => Some(categories_view(out@) + rest),
                None => None,
            },
        decreases b@.len() - pos,
    {
        let ghost sub = b@.subrange(pos as int, b@.len() as int);
        if b.len() - pos < 4 {
            return None;
        }
        let n = read_u32_le(b, pos);
        assert(u32_at(sub, 0) == n);
        if b.len() - pos < 12 || b.len() - pos - 12 < n as usize {
            return None;
        }
        let start: usize = pos + 4;
        let end: usize = start + n as usize;
        let mut name: Vec<u8> = Vec::new();
        let mut j: usize = start;
        while j < end
            invariant
                start <= j <= end,
                end <= b@.len(),
                name@ == b@.subrange(start as int, j as int),
            decreases end - j,
        {
            name.push(b[j]);
            j = j + 1;
            assert(name@ =~= b@.subrange(start as int, j as int));
        }
        assert(name@ =~= sub.subrange(4, 4 + n as int));
        let a = Alloc { rate_bits: read_u32_le(b, end), flat: read_u32_le(b, end + 4) };
        assert(a.rate_bits == u32_at(sub, 4 + n as int));
        assert(a.flat == u32_at(sub, 8 + n as int));
        assert(sub.subrange(12 + n as int, sub.len() as int) =~= b@.subrange(
            end + 8,
            b@.len() as int,
        ));
        match string_from_utf8(name) {
            Some(s) => {
                let ghost prev = categories_view(out@);
                out.push((s, a));
                assert(categories_view(out@) =~= prev + seq![(s@, a)]);
                proof {
                    match decode_entries(b@.subrange(end + 8, b@.len() as int)) {
                        Some(rest) => {
                            assert(prev + (seq![(s@, a)] + rest) =~= categories_view(out@)
                                + rest);
                        },
                        None => {},
                    }
                }
            },
            None => {
                return None;
            },
        }
        pos = end + 8;
    }
    assert(b@.subrange(pos as int, b@.len() as int) =~= Seq::<u8>::empty());
    assert(categories_view(out@) + Seq::<(Seq<char>, Alloc)>::empty() =~= categories_view(out@));
    Some(out)
}

} // verus!
