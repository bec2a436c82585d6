//! The byte layout of stored fields.
//!
//! A number is eight little-endian bytes, a tag is one byte, a text is the
//! length of its UTF-8 form followed by that form, and a list of texts is its
//! length followed by its items. Each layout comes with a parser that reads it
//! back from the front of a byte string and hands on what is left.

use crate::text::text_from_utf8;
use vstd::bytes::*;
use vstd::prelude::*;
use vstd::slice::*;
use vstd::string::StrSliceExecFns;
use vstd::utf8::*;

verus! {

pub open spec fn enc_u64(v: u64) -> Seq<u8> {
    spec_u64_to_le_bytes(v)
}

pub open spec fn enc_tag(tag: u8) -> Seq<u8> {
    seq![tag]
}

pub open spec fn enc_text(s: Seq<char>) -> Seq<u8> {
    enc_u64(encode_utf8(s).len() as u64) + encode_utf8(s)
}

pub open spec fn enc_text_items(items: Seq<Seq<char>>) -> Seq<u8>
    decreases items.len(),
{
    if items.len() == 0 {
        Seq::empty()
    } else {
        enc_text(items[0]) + enc_text_items(items.drop_first())
    }
}

pub open spec fn enc_texts(items: Seq<Seq<char>>) -> Seq<u8> {
    enc_u64(items.len() as u64) + enc_text_items(items)
}

/// Whether the length of the text's UTF-8 form fits the length field.
pub open spec fn text_fits(s: Seq<char>) -> bool {
    encode_utf8(s).len() <= u64::MAX
}

/// Whether the list and each of its items fit their length fields.
pub open spec fn texts_fit(items: Seq<Seq<char>>) -> bool {
    &&& items.len() <= u64::MAX
    &&& forall|i: int| 0 <= i < items.len() ==> text_fits(#[trigger] items[i])
}

/// The value that a parse read; meaningless when it read none.
pub open spec fn value_of<T>(parsed: Option<(T, Seq<u8>)>) -> T {
    match parsed {
        Some((value, _)) => value,
        None => arbitrary(),
    }
}

/// The bytes that a parse left over; none when it failed.
pub open spec fn rest_of<T>(parsed: Option<(T, Seq<u8>)>) -> Seq<u8> {
    match parsed {
        Some((_, rest)) => rest,
        None => Seq::empty(),
    }
}

pub open spec fn parse_u64(b: Seq<u8>) -> Option<(u64, Seq<u8>)> {
    if b.len() >= 8 {
        Some((spec_u64_from_le_bytes(b.take(8)), b.skip(8)))
    } else {
        None
    }
}

pub open spec fn parse_tag(b: Seq<u8>) -> Option<(u8, Seq<u8>)> {
    if b.len() >= 1 {
        Some((b[0], b.skip(1)))
    } else {
        None
    }
}

pub open spec fn parse_text(b: Seq<u8>) -> Option<(Seq<char>, Seq<u8>)> {
    match parse_u64(b) {
        Some((n, rest)) => if n <= rest.len() && valid_utf8(rest.take(n as int)) {
            Some((decode_utf8(rest.take(n as int)), rest.skip(n as int)))
        } else {
            None
        },
        None => None,
    }
}

pub open spec fn parse_text_items(b: Seq<u8>, count: nat) -> Option<(Seq<Seq<char>>, Seq<u8>)>
    decreases count,
{
    if count == 0 {
        Some((Seq::empty(), b))
    } else {
        match parse_text(b) {
            Some((first, rest)) => with_first(first, parse_text_items(rest, (count - 1) as nat)),
            None => None,
        }
    }
}

/// A parse of the items after `first`, with `first` put in front.
pub open spec fn with_first(first: Seq<char>, tail: Option<(Seq<Seq<char>>, Seq<u8>)>) -> Option<
    (Seq<Seq<char>>, Seq<u8>),
> {
    match tail {
        Some((items, rest)) => Some((seq![first] + items, rest)),
        None => None,
    }
}

/// A parse of the items after `done`, with `done` put in front.
pub open spec fn with_prefix(
    done: Seq<Seq<char>>,
    tail: Option<(Seq<Seq<char>>, Seq<u8>)>,
) -> Option<(Seq<Seq<char>>, Seq<u8>)> {
    match tail {
        Some((items, rest)) => Some((done + items, rest)),
        None => None,
    }
}

pub open spec fn parse_texts(b: Seq<u8>) -> Option<(Seq<Seq<char>>, Seq<u8>)> {
    match parse_u64(b) {
        Some((n, rest)) => parse_text_items(rest, n as nat),
        None => None,
    }
}

pub proof fn lemma_parse_u64(v: u64, rest: Seq<u8>)
    ensures
        parse_u64(enc_u64(v) + rest) == Some((v, rest)),
{
    lemma_auto_spec_u64_to_from_le_bytes();
    let b = enc_u64(v) + rest;
    assert(b.take(8) =~= enc_u64(v));
    assert(b.skip(8) =~= rest);
}

pub proof fn lemma_parse_tag(tag: u8, rest: Seq<u8>)
    ensures
        parse_tag(enc_tag(tag) + rest) == Some((tag, rest)),
{
    let b = enc_tag(tag) + rest;
    assert(b.skip(1) =~= rest);
}

pub proof fn lemma_parse_text(s: Seq<char>, rest: Seq<u8>)
    requires
        text_fits(s),
    ensures
        parse_text(enc_text(s) + rest) == Some((s, rest)),
{
    let body = encode_utf8(s);
    let n = body.len() as u64;
    assert(enc_text(s) + rest =~= enc_u64(n) + (body + rest));
    lemma_parse_u64(n, body + rest);
    assert((body + rest).take(n as int) =~= body);
    assert((body + rest).skip(n as int) =~= rest);
    encode_utf8_valid_utf8(s);
    encode_utf8_decode_utf8(s);
}

pub proof fn lemma_parse_text_items(items: Seq<Seq<char>>, rest: Seq<u8>)
    requires
        texts_fit(items),
    ensures
        parse_text_items(enc_text_items(items) + rest, items.len()) == Some((items, rest)),
    decreases items.len(),
{
    if items.len() == 0 {
        assert(enc_text_items(items) + rest =~= rest);
        assert(items =~= Seq::empty());
    } else {
        let tail = items.drop_first();
        assert(enc_text_items(items) + rest =~= enc_text(items[0]) + (enc_text_items(tail)
            + rest));
        lemma_parse_text(items[0], enc_text_items(tail) + rest);
        assert forall|i: int| 0 <= i < tail.len() implies text_fits(#[trigger] tail[i]) by {
            assert(tail[i] == items[i + 1]);
        }
        lemma_parse_text_items(tail, rest);
        assert(seq![items[0]] + tail =~= items);
    }
}

pub proof fn lemma_parse_texts(items: Seq<Seq<char>>, rest: Seq<u8>)
    requires
        texts_fit(items),
    ensures
        parse_texts(enc_texts(items) + rest) == Some((items, rest)),
{
    let n = items.len() as u64;
    assert(enc_texts(items) + rest =~= enc_u64(n) + (enc_text_items(items) + rest));
    lemma_parse_u64(n, enc_text_items(items) + rest);
    lemma_parse_text_items(items, rest);
}

/// What parses as a number is that number's layout and the rest.
pub proof fn lemma_parsed_u64(b: Seq<u8>)
    requires
        parse_u64(b) is Some,
    ensures
        b == enc_u64(value_of(parse_u64(b))) + rest_of(parse_u64(b)),
{
    lemma_auto_spec_u64_to_from_le_bytes();
    assert(b.take(8).len() == 8);
    assert(b =~= b.take(8) + b.skip(8));
}

/// What parses as a tag is that tag's layout and the rest.
pub proof fn lemma_parsed_tag(b: Seq<u8>)
    requires
        parse_tag(b) is Some,
    ensures
        b == enc_tag(value_of(parse_tag(b))) + rest_of(parse_tag(b)),
{
    assert(b =~= seq![b[0]] + b.skip(1));
}

/// What parses as a text is that text's layout and the rest.
pub proof fn lemma_parsed_text(b: Seq<u8>)
    requires
        parse_text(b) is Some,
    ensures
        b == enc_text(value_of(parse_text(b))) + rest_of(parse_text(b)),
        text_fits(value_of(parse_text(b))),
{
    lemma_parsed_u64(b);
    let n = value_of(parse_u64(b));
    let rest = rest_of(parse_u64(b));
    let body = rest.take(n as int);
    decode_utf8_encode_utf8(body);
    assert(rest =~= body + rest.skip(n as int));
    assert(b =~= enc_text(decode_utf8(body)) + rest.skip(n as int));
}

/// What parses as `count` texts is their layout and the rest.
pub proof fn lemma_parsed_text_items(b: Seq<u8>, count: nat)
    requires
        parse_text_items(b, count) is Some,
    ensures
        b == enc_text_items(value_of(parse_text_items(b, count))) + rest_of(
            parse_text_items(b, count),
        ),
        value_of(parse_text_items(b, count)).len() == count,
        forall|i: int|
            0 <= i < count ==> text_fits(#[trigger] value_of(parse_text_items(b, count))[i]),
    decreases count,
{
    let items = value_of(parse_text_items(b, count));
    if count == 0 {
        assert(enc_text_items(items) + b =~= b);
    } else {
        lemma_parsed_text(b);
        let first = value_of(parse_text(b));
        let after = rest_of(parse_text(b));
        let tail = parse_text_items(after, (count - 1) as nat);
        lemma_parsed_text_items(after, (count - 1) as nat);
        assert(items == seq![first] + value_of(tail));
        assert(items[0] == first);
        assert(items.drop_first() =~= value_of(tail));
        assert(b =~= enc_text_items(items) + rest_of(tail));
        assert forall|i: int| 0 <= i < count implies text_fits(#[trigger] items[i]) by {
            if i > 0 {
                assert(items[i] == value_of(tail)[i - 1]);
            }
        }
    }
}

/// What parses as a list of texts is that list's layout and the rest.
pub proof fn lemma_parsed_texts(b: Seq<u8>)
    requires
        parse_texts(b) is Some,
    ensures
        b == enc_texts(value_of(parse_texts(b))) + rest_of(parse_texts(b)),
        texts_fit(value_of(parse_texts(b))),
{
    lemma_parsed_u64(b);
    let n = value_of(parse_u64(b));
    let rest = rest_of(parse_u64(b));
    lemma_parsed_text_items(rest, n as nat);
    let items = value_of(parse_texts(b));
    assert(b =~= enc_texts(items) + rest_of(parse_texts(b)));
}

pub proof fn lemma_enc_text_items_push(items: Seq<Seq<char>>, last: Seq<char>)
    ensures
        enc_text_items(items.push(last)) == enc_text_items(items) + enc_text(last),
    decreases items.len(),
{
    let all = items.push(last);
    if items.len() == 0 {
        assert(all[0] == last);
        assert(all.drop_first() =~= Seq::empty());
        assert(enc_text_items(all.drop_first()) =~= Seq::empty());
        assert(enc_text_items(all) =~= enc_text(last));
        assert(enc_text_items(items) + enc_text(last) =~= enc_text(last));
    } else {
        assert(all.drop_first() =~= items.drop_first().push(last));
        lemma_enc_text_items_push(items.drop_first(), last);
        assert(all[0] == items[0]);
        assert(enc_text_items(all) =~= enc_text_items(items) + enc_text(last));
    }
}

/// Appends the layout of a number.
pub fn put_u64(out: &mut Vec<u8>, v: u64)
    ensures
        final(out)@ == old(out)@ + enc_u64(v),
{
    let mut b = u64_to_le_bytes(v);
    out.append(&mut b);
}

/// Appends the layout of a tag.
pub fn put_tag(out: &mut Vec<u8>, tag: u8)
    ensures
        final(out)@ == old(out)@ + enc_tag(tag),
{
    out.push(tag);
    assert(out@ =~= old(out)@ + enc_tag(tag));
}

/// Appends the layout of a text.
pub fn put_text(out: &mut Vec<u8>, s: &str)
    ensures
        final(out)@ == old(out)@ + enc_text(s@),
        text_fits(s@),
{
    let mut b = s.as_bytes_vec();
    put_u64(out, b.len() as u64);
    out.append(&mut b);
    assert(out@ =~= old(out)@ + enc_text(s@));
}

/// Appends the layout of a list of texts.
pub fn put_texts(out: &mut Vec<u8>, items: &Vec<String>)
    ensures
        final(out)@ == old(out)@ + enc_texts(items.deep_view()),
        texts_fit(items.deep_view()),
{
    let ghost all = items.deep_view();
    put_u64(out, items.len() as u64);
    let ghost base = out@;
    let mut i: usize = 0;
    assert(all.take(0) =~= Seq::empty());
    assert(out@ =~= base + enc_text_items(all.take(0)));
    while i < items.len()
        invariant
            i <= items.len(),
            all == items.deep_view(),
            out@ == base + enc_text_items(all.take(i as int)),
            forall|k: int| 0 <= k < i ==> text_fits(#[trigger] all[k]),
        decreases items.len() - i,
    {
        let ghost before = out@;
        put_text(out, items[i].as_str());
        proof {
            assert(all[i as int] == items[i as int]@);
            assert(all.take(i + 1) =~= all.take(i as int).push(all[i as int]));
            lemma_enc_text_items_push(all.take(i as int), all[i as int]);
            assert(out@ =~= base + enc_text_items(all.take(i + 1)));
        }
        i += 1;
    }
    assert(all.take(i as int) =~= all);
    assert(out@ =~= old(out)@ + enc_texts(all));
}

/// Reads a number at `pos`.
pub fn get_u64(bytes: &[u8], pos: usize) -> (r: Option<(u64, usize)>)
    requires
        pos <= bytes@.len(),
    ensures
        match r {
            Some((v, next)) => pos <= next <= bytes@.len() && parse_u64(bytes@.skip(pos as int))
                == Some((v, bytes@.skip(next as int))),
            None => parse_u64(bytes@.skip(pos as int)) is None,
        },
{
    if bytes.len() - pos < 8 {
        None
    } else {
        let v = u64_from_le_bytes(slice_subrange(bytes, pos, pos + 8));
        proof {
            let from = bytes@.skip(pos as int);
            assert(from.take(8) =~= bytes@.subrange(pos as int, pos + 8));
            assert(from.skip(8) =~= bytes@.skip(pos + 8));
        }
        Some((v, pos + 8))
    }
}

/// Reads a tag at `pos`.
pub fn get_tag(bytes: &[u8], pos: usize) -> (r: Option<(u8, usize)>)
    requires
        pos <= bytes@.len(),
    ensures
        match r {
            Some((v, next)) => pos <= next <= bytes@.len() && parse_tag(bytes@.skip(pos as int))
                == Some((v, bytes@.skip(next as int))),
            None => parse_tag(bytes@.skip(pos as int)) is None,
        },
{
    if bytes.len() - pos < 1 {
        None
    } else {
        let v = bytes[pos];
        proof {
            let from = bytes@.skip(pos as int);
            assert(from.skip(1) =~= bytes@.skip(pos + 1));
        }
        Some((v, pos + 1))
    }
}

/// Reads a text at `pos`.
pub fn get_text(bytes: &[u8], pos: usize) -> (r: Option<(String, usize)>)
    requires
        pos <= bytes@.len(),
    ensures
        match r {
            Some((s, next)) => pos <= next <= bytes@.len() && parse_text(
                bytes@.skip(pos as int),
            ) == Some((s@, bytes@.skip(next as int))),
            None => parse_text(bytes@.skip(pos as int)) is None,
        },
{
    let (n, start) = match get_u64(bytes, pos) {
        Some(read) => read,
        None => { return None; },
    };
    if n > (bytes.len() - start) as u64 {
        return None;
    }
    let end = start + n as usize;
    let body = slice_to_vec(slice_subrange(bytes, start, end));
    proof {
        let rest = bytes@.skip(start as int);
        assert(rest.take(n as int) =~= bytes@.subrange(start as int, end as int));
        assert(rest.skip(n as int) =~= bytes@.skip(end as int));
    }
    match text_from_utf8(body) {
        Some(s) => Some((s, end)),
        None => None,
    }
}

/// Reads a list of texts at `pos`.
pub fn get_texts(bytes: &[u8], pos: usize) -> (r: Option<(Vec<String>, usize)>)
    requires
        pos <= bytes@.len(),
    ensures
        match r {
            Some((items, next)) => pos <= next <= bytes@.len() && parse_texts(
                bytes@.skip(pos as int),
            ) == Some((items.deep_view(), bytes@.skip(next as int))),
            None => parse_texts(bytes@.skip(pos as int)) is None,
        },
{
    let (n, start) = match get_u64(bytes, pos) {
        Some(read) => read,
        None => { return None; },
    };
    let ghost whole = parse_text_items(bytes@.skip(start as int), n as nat);
    let mut items: Vec<String> = Vec::new();
    let mut at = start;
    let mut i: u64 = 0;
    assert(items.deep_view() =~= Seq::empty());
    assert(with_prefix(items.deep_view(), whole) == whole) by {
        if let Some((tail, rest)) = whole {
            assert(Seq::<Seq<char>>::empty() + tail =~= tail);
        }
    }
    while i < n
        invariant
            i <= n,
            pos <= at <= bytes@.len(),
            parse_texts(bytes@.skip(pos as int)) == whole,
            whole == with_prefix(
                items.deep_view(),
                parse_text_items(bytes@.skip(at as int), (n - i) as nat),
            ),
        decreases n - i,
    {
        let ghost done = items.deep_view();
        let ghost here = bytes@.skip(at as int);
        match get_text(bytes, at) {
            Some((s, next)) => {
                let ghost first = s@;
                items.push(s);
                proof {
                    let tail = parse_text_items(bytes@.skip(next as int), (n - i - 1) as nat);
                    assert(parse_text_items(here, (n - i) as nat) == with_first(first, tail));
                    assert(items.deep_view() =~= done.push(first));
                    if let Some((more, rest)) = tail {
                        assert(done + (seq![first] + more) =~= done.push(first) + more);
                    }
                }
                at = next;
            },
            None => {
                proof {
                    assert(parse_text_items(here, (n - i) as nat) is None);
                    assert(whole is None);
                }
                return None;
            },
        }
        i += 1;
    }
    proof {
        assert(items.deep_view() + Seq::<Seq<char>>::empty() =~= items.deep_view());
    }
    Some((items, at))
}

} // verus!
