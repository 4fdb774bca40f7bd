//! Canonical byte encoding of the values that are hashed or signed:
//! little-endian integers, compact length prefixes, fields in order.
use vstd::prelude::*;
use vstd::bytes::{spec_u64_to_le_bytes, u64_to_le_bytes};
use vstd::utf8::encode_utf8;
use crate::crypto::{compact_of, encode_compact, Digest};

verus! {

/// The view of an optional digest.
pub open spec fn opt_hash_view(o: Option<Digest>) -> Option<Seq<u8>> {
    match o {
        Some(h) => Some(h@),
        None => None,
    }
}

/// Encoding of an unsigned 64-bit integer.
pub open spec fn enc_u64(x: u64) -> Seq<u8> {
    spec_u64_to_le_bytes(x)
}

/// Encoding of a byte string: its length, then its bytes.
pub open spec fn enc_bytes(s: Seq<u8>) -> Seq<u8> {
    compact_of(s.len() as u32) + s
}

/// Encoding of a text: the length of its UTF-8 form, then that form.
pub open spec fn enc_text(s: Seq<char>) -> Seq<u8> {
    enc_bytes(encode_utf8(s))
}

/// Encoding of an optional digest: a tag byte, then the digest if present.
pub open spec fn enc_opt_hash(o: Option<Seq<u8>>) -> Seq<u8> {
    match o {
        Some(h) => seq![1u8] + h,
        None => seq![0u8],
    }
}

/// Encoding of an optional byte string: a tag byte, then the string if present.
pub open spec fn enc_opt_bytes(o: Option<Seq<u8>>) -> Seq<u8> {
    match o {
        Some(b) => seq![1u8] + enc_bytes(b),
        None => seq![0u8],
    }
}

/// Encodings of a list of byte strings, one after another.
pub open spec fn enc_bytes_all(s: Seq<Vec<u8>>) -> Seq<u8>
    decreases s.len(),
{
    if s.len() == 0 {
        Seq::empty()
    } else {
        enc_bytes_all(s.drop_last()) + enc_bytes(s.last()@)
    }
}

/// Whether every byte string of a list is short enough for a length prefix.
pub open spec fn all_prefixable(s: Seq<Vec<u8>>) -> bool {
    forall|i: int| 0 <= i < s.len() ==> s[i]@.len() <= u32::MAX
}

/// Whether two byte strings are equal.
pub fn bytes_eq(a: &[u8], b: &[u8]) -> (r: bool)
    ensures
        r == (a@ == b@),
{
    if a.len() != b.len() {
        return false;
    }
    let mut i: usize = 0;
    while i < a.len()
        invariant
            a@.len() == b@.len(),
            i <= a@.len(),
            forall|j: int| 0 <= j < i ==> a@[j] == b@[j],
        decreases a@.len() - i,
    {
        if a[i] != b[i] {
            return false;
        }
        i += 1;
    }
    assert(a@ =~= b@);
    true
}

/// Whether two optional digests are equal.
pub fn same_hash(a: &Option<Digest>, b: &Option<Digest>) -> (r: bool)
    ensures
        r == (opt_hash_view(*a) == opt_hash_view(*b)),
{
    match (a, b) {
        (Some(x), Some(y)) => bytes_eq(x.bytes.as_slice(), y.bytes.as_slice()),
        (None, None) => true,
        _ => false,
    }
}

/// A copy of an optional digest.
pub fn clone_opt_hash(o: &Option<Digest>) -> (r: Option<Digest>)
    ensures
        opt_hash_view(r) == opt_hash_view(*o),
{
    match o {
        Some(h) => Some(h.clone()),
        None => None,
    }
}

/// Appends `data` to `out`.
pub fn push_all(out: &mut Vec<u8>, data: &[u8])
    ensures
        final(out)@ == old(out)@ + data@,
{
    let mut i: usize = 0;
    while i < data.len()
        invariant
            i <= data@.len(),
            out@ == old(out)@ + data@.subrange(0, i as int),
        decreases data@.len() - i,
    {
        out.push(data[i]);
        i += 1;
        assert(out@ =~= old(out)@ + data@.subrange(0, i as int));
    }
    assert(data@.subrange(0, data@.len() as int) =~= data@);
}

/// Appends the encoding of `x`.
pub fn put_u64(out: &mut Vec<u8>, x: u64)
    ensures
        final(out)@ == old(out)@ + enc_u64(x),
{
    let b = u64_to_le_bytes(x);
    push_all(out, b.as_slice());
}

/// Appends the encoding of a byte string.
pub fn put_bytes(out: &mut Vec<u8>, data: &[u8])
    requires
        data@.len() <= u32::MAX,
    ensures
        final(out)@ == old(out)@ + enc_bytes(data@),
{
    let prefix = encode_compact(data.len() as u32);
    push_all(out, prefix.as_slice());
    push_all(out, data);
    assert(out@ =~= old(out)@ + enc_bytes(data@));
}

/// Appends the encoding of a text.
pub fn put_text(out: &mut Vec<u8>, s: &String)
    requires
        encode_utf8(s@).len() <= u32::MAX,
    ensures
        final(out)@ == old(out)@ + enc_text(s@),
{
    let b = s.as_str().as_bytes();
    put_bytes(out, b);
}

/// Appends the encoding of an optional digest.
pub fn put_opt_hash(out: &mut Vec<u8>, o: &Option<Digest>)
    ensures
        final(out)@ == old(out)@ + enc_opt_hash(opt_hash_view(*o)),
{
    match o {
        Some(h) => {
            out.push(1u8);
            push_all(out, h.bytes.as_slice());
        },
        None => {
            out.push(0u8);
        },
    }
    assert(out@ =~= old(out)@ + enc_opt_hash(opt_hash_view(*o)));
}

/// Appends the encoding of an optional byte string.
pub fn put_opt_bytes(out: &mut Vec<u8>, o: &Option<Vec<u8>>)
    requires
        o is Some ==> o->0@.len() <= u32::MAX,
    ensures
        final(out)@ == old(out)@ + enc_opt_bytes(match *o {
            Some(b) => Some(b@),
            None => None,
        }),
{
    match o {
        Some(b) => {
            out.push(1u8);
            put_bytes(out, b.as_slice());
        },
        None => {
            out.push(0u8);
        },
    }
    assert(out@ =~= old(out)@ + enc_opt_bytes(match *o {
        Some(b) => Some(b@),
        None => None,
    }));
}

/// Appends the encoding of a list of byte strings: its length, then each string.
pub fn put_bytes_list(out: &mut Vec<u8>, items: &Vec<Vec<u8>>)
    requires
        items@.len() <= u32::MAX,
        all_prefixable(items@),
    ensures
        final(out)@ == old(out)@ + compact_of(items@.len() as u32) + enc_bytes_all(items@),
{
    let prefix = encode_compact(items.len() as u32);
    push_all(out, prefix.as_slice());
    let ghost start = out@;
    let mut i: usize = 0;
    while i < items.len()
        invariant
            i <= items@.len(),
            all_prefixable(items@),
            out@ == start + enc_bytes_all(items@.subrange(0, i as int)),
        decreases items@.len() - i,
    {
        assert(items@.subrange(0, i + 1).drop_last() =~= items@.subrange(0, i as int));
        put_bytes(out, items[i].as_slice());
        i += 1;
        assert(out@ =~= start + enc_bytes_all(items@.subrange(0, i as int)));
    }
    assert(items@.subrange(0, items@.len() as int) =~= items@);
    assert(out@ =~= old(out)@ + compact_of(items@.len() as u32) + enc_bytes_all(items@));
}

} // verus!
