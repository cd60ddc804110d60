//! The byte layout of the fields of a stored record.
//!
//! A record is the concatenation of its fields in declaration order. An integer
//! is written little-endian in its full width, a flag as one byte (0 or 1), a
//! text as the length of its UTF-8 form in four bytes followed by that form, and
//! an id list as its length in four bytes followed by its ids, eight bytes each.
//!
//! Every field has a writer that appends it, a reader that takes it from a
//! position, and two lemmas: what was written is read back, and what is read
//! back was written that way and no other.

use vstd::prelude::*;
use vstd::bytes::*;
use vstd::slice::*;
use vstd::string::*;
use vstd::utf8::*;

verus! {

/// The eight bytes of an integer, lowest first.
pub open spec fn u64_bytes(x: u64) -> Seq<u8> {
    spec_u64_to_le_bytes(x)
}

/// The four bytes of an integer, lowest first.
pub open spec fn u32_bytes(x: u32) -> Seq<u8> {
    spec_u32_to_le_bytes(x)
}

/// The byte of a flag: 1 if it is set, else 0.
pub open spec fn flag_bytes(b: bool) -> Seq<u8> {
    seq![if b { 1u8 } else { 0u8 }]
}

/// The bytes of a text: the length of its UTF-8 form, then that form.
#[verifier::opaque]
pub open spec fn text_bytes(t: Seq<char>) -> Seq<u8> {
    u32_bytes(encode_utf8(t).len() as u32) + encode_utf8(t)
}

/// The ids of a list, eight bytes each, without the length in front.
pub open spec fn ids_body(ids: Seq<u64>) -> Seq<u8> {
    Seq::new(8 * ids.len(), |j: int| u64_bytes(ids[j / 8])[j % 8])
}

/// The bytes of an id list: its length, then its ids.
#[verifier::opaque]
pub open spec fn ids_bytes(ids: Seq<u64>) -> Seq<u8> {
    u32_bytes(ids.len() as u32) + ids_body(ids)
}

/// The ids that a run of bytes holds, eight bytes each.
pub open spec fn ids_from(body: Seq<u8>) -> Seq<u64> {
    Seq::new(body.len() / 8, |i: int| spec_u64_from_le_bytes(body.subrange(8 * i, 8 * i + 8)))
}

/// The integer at the front of `b` and what follows it.
#[verifier::opaque]
pub open spec fn parse_u64(b: Seq<u8>) -> Option<(u64, Seq<u8>)> {
    if b.len() < 8 {
        None
    } else {
        Some((spec_u64_from_le_bytes(b.take(8)), b.skip(8)))
    }
}

/// The integer at the front of `b` and what follows it.
#[verifier::opaque]
pub open spec fn parse_u32(b: Seq<u8>) -> Option<(u32, Seq<u8>)> {
    if b.len() < 4 {
        None
    } else {
        Some((spec_u32_from_le_bytes(b.take(4)), b.skip(4)))
    }
}

/// The flag at the front of `b` and what follows it. A byte other than 0 and
/// 1 is no flag.
#[verifier::opaque]
pub open spec fn parse_flag(b: Seq<u8>) -> Option<(bool, Seq<u8>)> {
    if b.len() < 1 || b[0] > 1 {
        None
    } else {
        Some((b[0] == 1, b.skip(1)))
    }
}

/// The text at the front of `b` and what follows it. Bytes that are not
/// well-formed UTF-8 are no text.
#[verifier::opaque]
pub open spec fn parse_text(b: Seq<u8>) -> Option<(Seq<char>, Seq<u8>)> {
    match parse_u32(b) {
        None => None,
        Some((n, rest)) => if rest.len() < n || !valid_utf8(rest.take(n as int)) {
            None
        } else {
            Some((decode_utf8(rest.take(n as int)), rest.skip(n as int)))
        },
    }
}

/// The id list at the front of `b` and what follows it.
#[verifier::opaque]
pub open spec fn parse_ids(b: Seq<u8>) -> Option<(Seq<u64>, Seq<u8>)> {
    match parse_u32(b) {
        None => None,
        Some((n, rest)) => if rest.len() < 8 * n {
            None
        } else {
            Some((ids_from(rest.take(8 * n)), rest.skip(8 * n)))
        },
    }
}

/// An integer of 64 bits takes eight bytes.
pub proof fn lemma_u64_len(x: u64)
    ensures
        u64_bytes(x).len() == 8,
{
    lemma_auto_spec_u64_to_from_le_bytes();
}

/// An integer of 32 bits takes four bytes.
pub proof fn lemma_u32_len(x: u32)
    ensures
        u32_bytes(x).len() == 4,
{
    lemma_auto_spec_u32_to_from_le_bytes();
}

/// The ids of a list with one more id end in the bytes of that id.
pub proof fn lemma_ids_body_push(ids: Seq<u64>, id: u64)
    ensures
        ids_body(ids.push(id)) == ids_body(ids) + u64_bytes(id),
{
    lemma_u64_len(id);
    assert(ids_body(ids.push(id)) =~= ids_body(ids) + u64_bytes(id));
}

/// An integer that was written is read back, whatever follows it.
pub proof fn lemma_parse_u64_written(x: u64, rest: Seq<u8>)
    ensures
        parse_u64(u64_bytes(x) + rest) == Some((x, rest)),
{
    reveal(parse_u64);
    lemma_auto_spec_u64_to_from_le_bytes();
    let b = u64_bytes(x) + rest;
    assert(b.take(8) =~= u64_bytes(x));
    assert(b.skip(8) =~= rest);
}

/// Bytes from which an integer is read begin with the bytes of that integer.
pub proof fn lemma_parse_u64_exact(b: Seq<u8>)
    requires
        parse_u64(b) is Some,
    ensures
        b == u64_bytes(parse_u64(b).unwrap().0) + parse_u64(b).unwrap().1,
{
    reveal(parse_u64);
    lemma_auto_spec_u64_to_from_le_bytes();
    assert(b.take(8).len() == 8);
    assert(b =~= b.take(8) + b.skip(8));
}

/// An integer that was written is read back, whatever follows it.
pub proof fn lemma_parse_u32_written(x: u32, rest: Seq<u8>)
    ensures
        parse_u32(u32_bytes(x) + rest) == Some((x, rest)),
{
    reveal(parse_u32);
    lemma_auto_spec_u32_to_from_le_bytes();
    let b = u32_bytes(x) + rest;
    assert(b.take(4) =~= u32_bytes(x));
    assert(b.skip(4) =~= rest);
}

/// Bytes from which an integer is read begin with the bytes of that integer.
pub proof fn lemma_parse_u32_exact(b: Seq<u8>)
    requires
        parse_u32(b) is Some,
    ensures
        b == u32_bytes(parse_u32(b).unwrap().0) + parse_u32(b).unwrap().1,
{
    reveal(parse_u32);
    lemma_auto_spec_u32_to_from_le_bytes();
    assert(b.take(4).len() == 4);
    assert(b =~= b.take(4) + b.skip(4));
}

/// A flag that was written is read back, whatever follows it.
pub proof fn lemma_parse_flag_written(f: bool, rest: Seq<u8>)
    ensures
        parse_flag(flag_bytes(f) + rest) == Some((f, rest)),
{
    reveal(parse_flag);
    let b = flag_bytes(f) + rest;
    assert(b.skip(1) =~= rest);
}

/// Bytes from which a flag is read begin with the byte of that flag.
pub proof fn lemma_parse_flag_exact(b: Seq<u8>)
    requires
        parse_flag(b) is Some,
    ensures
        b == flag_bytes(parse_flag(b).unwrap().0) + parse_flag(b).unwrap().1,
{
    reveal(parse_flag);
    assert(b =~= flag_bytes(b[0] == 1) + b.skip(1));
}

/// A text that was written is read back, whatever follows it.
pub proof fn lemma_parse_text_written(t: Seq<char>, rest: Seq<u8>)
    requires
        encode_utf8(t).len() <= u32::MAX,
    ensures
        parse_text(text_bytes(t) + rest) == Some((t, rest)),
{
    reveal(parse_text);
    reveal(text_bytes);
    let body = encode_utf8(t);
    let n = body.len() as u32;
    let b = text_bytes(t) + rest;
    assert(b =~= u32_bytes(n) + (body + rest));
    lemma_parse_u32_written(n, body + rest);
    assert((body + rest).take(n as int) =~= body);
    assert((body + rest).skip(n as int) =~= rest);
    encode_utf8_valid_utf8(t);
    encode_utf8_decode_utf8(t);
}

/// Bytes from which a text is read begin with the bytes of that text.
pub proof fn lemma_parse_text_exact(b: Seq<u8>)
    requires
        parse_text(b) is Some,
    ensures
        b == text_bytes(parse_text(b).unwrap().0) + parse_text(b).unwrap().1,
        encode_utf8(parse_text(b).unwrap().0).len() <= u32::MAX,
{
    reveal(parse_text);
    reveal(text_bytes);
    lemma_parse_u32_exact(b);
    let (n, rest) = parse_u32(b).unwrap();
    let body = rest.take(n as int);
    decode_utf8_encode_utf8(body);
    assert(rest =~= body + rest.skip(n as int));
    assert(b =~= (u32_bytes(n) + body) + rest.skip(n as int));
}

/// The bytes of ids hold those ids.
pub proof fn lemma_ids_from_body(ids: Seq<u64>)
    ensures
        ids_from(ids_body(ids)) == ids,
{
    lemma_auto_spec_u64_to_from_le_bytes();
    let body = ids_body(ids);
    assert forall|i: int| 0 <= i < ids.len() implies #[trigger] ids_from(body)[i] == ids[i] by {
        assert(body.subrange(8 * i, 8 * i + 8) =~= u64_bytes(ids[i]));
    }
    assert(ids_from(body) =~= ids);
}

/// A run of whole ids is the bytes of the ids it holds.
pub proof fn lemma_ids_body_from(body: Seq<u8>)
    requires
        body.len() % 8 == 0,
    ensures
        ids_body(ids_from(body)) == body,
{
    lemma_auto_spec_u64_to_from_le_bytes();
    let ids = ids_from(body);
    assert forall|j: int| 0 <= j < body.len() implies #[trigger] ids_body(ids)[j] == body[j] by {
        let i = j / 8;
        let chunk = body.subrange(8 * i, 8 * i + 8);
        assert(chunk.len() == 8);
        assert(u64_bytes(ids[i]) == chunk);
        assert(chunk[j % 8] == body[j]);
    }
    assert(ids_body(ids) =~= body);
}

/// An id list that was written is read back, whatever follows it.
pub proof fn lemma_parse_ids_written(ids: Seq<u64>, rest: Seq<u8>)
    requires
        ids.len() <= u32::MAX,
    ensures
        parse_ids(ids_bytes(ids) + rest) == Some((ids, rest)),
{
    reveal(parse_ids);
    reveal(ids_bytes);
    let body = ids_body(ids);
    let n = ids.len() as u32;
    let b = ids_bytes(ids) + rest;
    assert(b =~= u32_bytes(n) + (body + rest));
    lemma_parse_u32_written(n, body + rest);
    assert((body + rest).take(8 * n) =~= body);
    assert((body + rest).skip(8 * n) =~= rest);
    lemma_ids_from_body(ids);
}

/// Bytes from which an id list is read begin with the bytes of that list.
pub proof fn lemma_parse_ids_exact(b: Seq<u8>)
    requires
        parse_ids(b) is Some,
    ensures
        b == ids_bytes(parse_ids(b).unwrap().0) + parse_ids(b).unwrap().1,
        parse_ids(b).unwrap().0.len() <= u32::MAX,
{
    reveal(parse_ids);
    reveal(ids_bytes);
    lemma_parse_u32_exact(b);
    let (n, rest) = parse_u32(b).unwrap();
    let body = rest.take(8 * n);
    lemma_ids_body_from(body);
    assert(ids_from(body).len() == n);
    assert(rest =~= body + rest.skip(8 * n));
    assert(b =~= (u32_bytes(n) + body) + rest.skip(8 * n));
}

/// Converts bytes to a `String` with `String::from_utf8`. The standard library
/// accepts the bytes exactly when they are well-formed UTF-8, and the string it
/// returns then holds the characters that those bytes encode.
#[verifier::external_body]
pub(crate) fn text_from_utf8(bytes: Vec<u8>) -> (text: Option<String>)
    ensures
        text is Some <==> valid_utf8(bytes@),
        text is Some ==> text.unwrap()@ == decode_utf8(bytes@),
{
    String::from_utf8(bytes).ok()
}

/// Appends an integer.
pub fn put_u64(out: &mut Vec<u8>, x: u64)
    ensures
        final(out)@ == old(out)@ + u64_bytes(x),
{
    let mut b = u64_to_le_bytes(x);
    out.append(&mut b);
}

/// Appends an integer.
pub fn put_u32(out: &mut Vec<u8>, x: u32)
    ensures
        final(out)@ == old(out)@ + u32_bytes(x),
{
    let mut b = u32_to_le_bytes(x);
    out.append(&mut b);
}

/// Appends a flag.
pub fn put_flag(out: &mut Vec<u8>, f: bool)
    ensures
        final(out)@ == old(out)@ + flag_bytes(f),
{
    let byte: u8 = if f { 1 } else { 0 };
    out.push(byte);
    assert(out@ =~= old(out)@ + flag_bytes(f));
}

/// Appends a text. Its UTF-8 form must be short enough for its length to fit
/// in four bytes.
pub fn put_text(out: &mut Vec<u8>, t: &String)
    requires
        encode_utf8(t@).len() <= u32::MAX,
    ensures
        final(out)@ == old(out)@ + text_bytes(t@),
{
    proof {
        reveal(text_bytes);
    }
    let mut body = t.as_str().as_bytes_vec();
    put_u32(out, body.len() as u32);
    out.append(&mut body);
    assert(out@ =~= old(out)@ + text_bytes(t@));
}

/// Appends an id list. It must be short enough for its length to fit in four
/// bytes.
pub fn put_ids(out: &mut Vec<u8>, ids: &Vec<u64>)
    requires
        ids.len() <= u32::MAX,
    ensures
        final(out)@ == old(out)@ + ids_bytes(ids@),
{
    proof {
        reveal(ids_bytes);
    }
    put_u32(out, ids.len() as u32);
    let ghost front = out@;
    let mut i: usize = 0;
    while i < ids.len()
        invariant
            i <= ids.len(),
            out@ == front + ids_body(ids@.take(i as int)),
        decreases ids.len() - i,
    {
        put_u64(out, ids[i]);
        proof {
            lemma_ids_body_push(ids@.take(i as int), ids[i as int]);
            assert(ids@.take(i + 1) =~= ids@.take(i as int).push(ids[i as int]));
            assert(out@ =~= front + ids_body(ids@.take(i + 1)));
        }
        i += 1;
    }
    assert(ids@.take(i as int) =~= ids@);
    assert(out@ =~= old(out)@ + ids_bytes(ids@));
}

/// Reads the integer at `pos`. The result holds the integer and the position
/// after it.
pub fn read_u64(b: &Vec<u8>, pos: usize) -> (r: Option<(u64, usize)>)
    requires
        pos <= b.len(),
    ensures
        match parse_u64(b@.skip(pos as int)) {
            None => r is None,
            Some((x, rest)) => r == Some((x, (pos + 8) as usize)) && pos + 8 <= b.len() && rest
                == b@.skip(pos + 8),
        },
{
    proof {
        reveal(parse_u64);
    }
    if b.len() - pos < 8 {
        return None;
    }
    let s = slice_subrange(b.as_slice(), pos, pos + 8);
    let x = u64_from_le_bytes(s);
    proof {
        assert(s@ =~= b@.skip(pos as int).take(8));
        assert(b@.skip(pos as int).skip(8) =~= b@.skip(pos + 8));
    }
    Some((x, pos + 8))
}

/// Reads the integer at `pos`. The result holds the integer and the position
/// after it.
pub fn read_u32(b: &Vec<u8>, pos: usize) -> (r: Option<(u32, usize)>)
    requires
        pos <= b.len(),
    ensures
        match parse_u32(b@.skip(pos as int)) {
            None => r is None,
            Some((x, rest)) => r == Some((x, (pos + 4) as usize)) && pos + 4 <= b.len() && rest
                == b@.skip(pos + 4),
        },
{
    proof {
        reveal(parse_u32);
    }
    if b.len() - pos < 4 {
        return None;
    }
    let s = slice_subrange(b.as_slice(), pos, pos + 4);
    let x = u32_from_le_bytes(s);
    proof {
        assert(s@ =~= b@.skip(pos as int).take(4));
        assert(b@.skip(pos as int).skip(4) =~= b@.skip(pos + 4));
    }
    Some((x, pos + 4))
}

/// Reads the flag at `pos`. The result holds the flag and the position after
/// it.
pub fn read_flag(b: &Vec<u8>, pos: usize) -> (r: Option<(bool, usize)>)
    requires
        pos <= b.len(),
    ensures
        match parse_flag(b@.skip(pos as int)) {
            None => r is None,
            Some((f, rest)) => r == Some((f, (pos + 1) as usize)) && pos + 1 <= b.len() && rest
                == b@.skip(pos + 1),
        },
{
    proof {
        reveal(parse_flag);
    }
    if b.len() - pos < 1 {
        return None;
    }
    let byte = b[pos];
    assert(b@.skip(pos as int)[0] == byte);
    if byte > 1 {
        return None;
    }
    proof {
        assert(b@.skip(pos as int).skip(1) =~= b@.skip(pos + 1));
    }
    Some((byte == 1, pos + 1))
}

/// Reads the text at `pos`. The result holds the text and the position after
/// it.
pub fn read_text(b: &Vec<u8>, pos: usize) -> (r: Option<(String, usize)>)
    requires
        pos <= b.len(),
    ensures
        match parse_text(b@.skip(pos as int)) {
            None => r is None,
            Some((t, rest)) => r is Some && r.unwrap().0@ == t && pos <= r.unwrap().1 <= b.len()
                && rest == b@.skip(r.unwrap().1 as int),
        },
{
    proof {
        reveal(parse_text);
    }
    let (n, at) = match read_u32(b, pos) {
        None => { return None; },
        Some(found) => found,
    };
    if b.len() - at < n as usize {
        return None;
    }
    let end = at + n as usize;
    let body = slice_to_vec(slice_subrange(b.as_slice(), at, end));
    proof {
        assert(body@ =~= b@.skip(at as int).take(n as int));
        assert(b@.skip(at as int).skip(n as int) =~= b@.skip(end as int));
    }
    match text_from_utf8(body) {
        None => None,
        Some(text) => Some((text, end)),
    }
}

/// Reads the id list at `pos`. The result holds the list and the position
/// after it.
pub fn read_ids(b: &Vec<u8>, pos: usize) -> (r: Option<(Vec<u64>, usize)>)
    requires
        pos <= b.len(),
    ensures
        match parse_ids(b@.skip(pos as int)) {
            None => r is None,
            Some((ids, rest)) => r is Some && r.unwrap().0@ == ids && pos <= r.unwrap().1
                <= b.len() && rest == b@.skip(r.unwrap().1 as int),
        },
{
    proof {
        reveal(parse_ids);
    }
    let (n, at) = match read_u32(b, pos) {
        None => { return None; },
        Some(found) => found,
    };
    if (b.len() - at) / 8 < n as usize {
        return None;
    }
    let ghost body = b@.skip(at as int).take(8 * n);
    let mut ids: Vec<u64> = Vec::new();
    let mut i: usize = 0;
    while i < n as usize
        invariant
            i <= n,
            at + 8 * n <= b.len(),
            body == b@.skip(at as int).take(8 * n),
            ids@ == ids_from(body).take(i as int),
        decreases n - i,
    {
        let s = slice_subrange(b.as_slice(), at + 8 * i, at + 8 * i + 8);
        let id = u64_from_le_bytes(s);
        ids.push(id);
        proof {
            assert(s@ =~= body.subrange(8 * i, 8 * i + 8));
            assert(ids@ =~= ids_from(body).take(i + 1));
        }
        i += 1;
    }
    proof {
        assert(ids@ =~= ids_from(body));
        assert(b@.skip(at as int).skip(8 * n) =~= b@.skip(at + 8 * n));
    }
    Some((ids, at + 8 * n as usize))
}

} // verus!
