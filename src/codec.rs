use vstd::bytes::*;
use vstd::prelude::*;
use vstd::slice::slice_subrange;
use vstd::string::*;
use vstd::utf8::{decode_utf8, encode_utf8, valid_utf8};

use crate::identifiers::{StoreObjectIID, StoreObjectOID};
use crate::schema::terms_view;

verus! {

broadcast use vstd::utf8::group_utf8_lib;

/// Stored form of a list of identifiers: eight little-endian bytes each, in order.
pub open spec fn iids_bytes(iids: Seq<u64>) -> Seq<u8>
    decreases iids.len(),
{
    if iids.len() == 0 {
        Seq::empty()
    } else {
        iids_bytes(iids.drop_last()) + spec_u64_to_le_bytes(iids.last())
    }
}

/// Stored form of one term: its UTF-8 length as four little-endian bytes, then its UTF-8.
pub open spec fn term_frame(term: Seq<char>) -> Seq<u8> {
    spec_u32_to_le_bytes(encode_utf8(term).len() as u32) + encode_utf8(term)
}

/// Stored form of a list of terms: their frames, in order.
pub open spec fn terms_bytes(terms: Seq<Seq<char>>) -> Seq<u8>
    decreases terms.len(),
{
    if terms.len() == 0 {
        Seq::empty()
    } else {
        terms_bytes(terms.drop_last()) + term_frame(terms.last())
    }
}

/// The terms that stored bytes hold, frame by frame; `None` where a frame is
/// cut short or is not UTF-8.
pub open spec fn parse_terms(bytes: Seq<u8>) -> Option<Seq<Seq<char>>>
    decreases bytes.len(),
{
    if bytes.len() == 0 {
        Some(Seq::empty())
    } else if bytes.len() < 4 {
        None
    } else {
        let n = spec_u32_from_le_bytes(bytes.subrange(0, 4)) as int;
        if 4 + n > bytes.len() || !valid_utf8(bytes.subrange(4, 4 + n)) {
            None
        } else {
            match parse_terms(bytes.subrange(4 + n, bytes.len() as int)) {
                Some(rest) => Some(seq![decode_utf8(bytes.subrange(4, 4 + n))] + rest),
                None => None,
            }
        }
    }
}

/// Relies on std::str::from_utf8: `Ok` exactly for UTF-8 bytes, holding the
/// text they encode (copied into a `String`).
#[verifier::external_body]
fn utf8_to_string(bytes: &[u8]) -> (r: Option<String>)
    ensures
        r is Some <==> valid_utf8(bytes@),
        r is Some ==> r->0@ == decode_utf8(bytes@),
{
    match std::str::from_utf8(bytes) {
        Ok(text) => Some(text.to_string()),
        Err(_) => None,
    }
}

fn append_bytes(out: &mut Vec<u8>, bytes: &[u8])
    ensures
        final(out)@ == old(out)@ + bytes@,
{
    let mut i: usize = 0;
    while i < bytes.len()
        invariant
            i <= bytes@.len(),
            out@ == old(out)@ + bytes@.take(i as int),
        decreases bytes@.len() - i,
    {
        out.push(bytes[i]);
        i += 1;
        assert(out@ =~= old(out)@ + bytes@.take(i as int));
    }
    assert(bytes@.take(bytes@.len() as int) =~= bytes@);
}

pub fn encode_iid(iid: StoreObjectIID) -> (r: Vec<u8>)
    ensures
        r@ == spec_u64_to_le_bytes(iid),
{
    u64_to_le_bytes(iid)
}

/// The identifier in eight stored bytes; `None` for any other length.
pub fn decode_iid(bytes: &[u8]) -> (r: Option<StoreObjectIID>)
    ensures
        r is Some <==> bytes@.len() == 8,
        r is Some ==> spec_u64_to_le_bytes(r->0) == bytes@,
{
    if bytes.len() == 8 {
        let x = u64_from_le_bytes(bytes);
        proof {
            lemma_auto_spec_u64_to_from_le_bytes();
            assert(spec_u64_to_le_bytes(spec_u64_from_le_bytes(bytes@)) == bytes@);
        }
        Some(x)
    } else {
        None
    }
}

pub fn encode_iids(iids: &Vec<StoreObjectIID>) -> (r: Vec<u8>)
    ensures
        r@ == iids_bytes(iids@),
{
    let mut out: Vec<u8> = Vec::new();
    let mut i: usize = 0;
    while i < iids.len()
        invariant
            i <= iids.len(),
            out@ == iids_bytes(iids@.take(i as int)),
        decreases iids.len() - i,
    {
        let chunk = u64_to_le_bytes(iids[i]);
        append_bytes(&mut out, chunk.as_slice());
        assert(iids@.take(i + 1).drop_last() =~= iids@.take(i as int));
        i += 1;
    }
    assert(iids@.take(iids.len() as int) =~= iids@);
    out
}

/// The identifiers in stored bytes; `None` where the length is not a multiple of eight.
pub fn decode_iids(bytes: &[u8]) -> (r: Option<Vec<StoreObjectIID>>)
    ensures
        r is Some <==> bytes@.len() % 8 == 0,
        r is Some ==> iids_bytes(r->0@) == bytes@,
{
    if bytes.len() % 8 != 0 {
        return None;
    }
    let mut out: Vec<StoreObjectIID> = Vec::new();
    let mut off: usize = 0;
    while off < bytes.len()
        invariant
            off <= bytes@.len(),
            off % 8 == 0,
            bytes@.len() % 8 == 0,
            iids_bytes(out@) == bytes@.subrange(0, off as int),
        decreases bytes@.len() - off,
    {
        let chunk = slice_subrange(bytes, off, off + 8);
        let x = u64_from_le_bytes(chunk);
        proof {
            lemma_auto_spec_u64_to_from_le_bytes();
            assert(spec_u64_to_le_bytes(spec_u64_from_le_bytes(chunk@)) == chunk@);
        }
        let ghost prev = out@;
        out.push(x);
        assert(out@.drop_last() =~= prev);
        assert(bytes@.subrange(0, off + 8) =~= bytes@.subrange(0, off as int) + chunk@);
        off += 8;
    }
    assert(bytes@.subrange(0, bytes@.len() as int) =~= bytes@);
    Some(out)
}

pub fn encode_oid(oid: &str) -> (r: Vec<u8>)
    ensures
        r@ == encode_utf8(oid@),
{
    oid.as_bytes_vec()
}

/// The external identifier in stored bytes; `None` where they are not UTF-8.
pub fn decode_oid(bytes: &[u8]) -> (r: Option<StoreObjectOID>)
    ensures
        r is Some <==> valid_utf8(bytes@),
        r is Some ==> r->0@ == decode_utf8(bytes@),
{
    utf8_to_string(bytes)
}

/// Every term fits the four-byte length of its frame.
pub open spec fn terms_framable(terms: Seq<String>) -> bool {
    forall|i: int| 0 <= i < terms.len() ==> encode_utf8(#[trigger] terms[i]@).len() <= u32::MAX
}

pub fn encode_terms(terms: &Vec<String>) -> (r: Vec<u8>)
    requires
        terms_framable(terms@),
    ensures
        r@ == terms_bytes(terms_view(terms@)),
{
    let mut out: Vec<u8> = Vec::new();
    let mut i: usize = 0;
    while i < terms.len()
        invariant
            i <= terms.len(),
            terms_framable(terms@),
            out@ == terms_bytes(terms_view(terms@.take(i as int))),
        decreases terms.len() - i,
    {
        let term = terms[i].as_str();
        let n = term.len();
        assert(encode_utf8(terms@[i as int]@).len() <= u32::MAX);
        let head = u32_to_le_bytes(n as u32);
        append_bytes(&mut out, head.as_slice());
        append_bytes(&mut out, term.as_bytes());
        assert(terms_view(terms@.take(i + 1)).drop_last() =~= terms_view(terms@.take(i as int)));
        assert(terms_view(terms@.take(i + 1)).last() == terms@[i as int]@);
        i += 1;
        assert(out@ =~= terms_bytes(terms_view(terms@.take(i as int))));
    }
    assert(terms@.take(terms.len() as int) =~= terms@);
    out
}

/// `acc` followed by what a parse gave, if it gave anything.
pub open spec fn after(acc: Seq<Seq<char>>, parsed: Option<Seq<Seq<char>>>) -> Option<
    Seq<Seq<char>>,
> {
    match parsed {
        Some(rest) => Some(acc + rest),
        None => None,
    }
}

/// The terms in stored bytes, exactly as `parse_terms` reads them.
pub fn decode_terms(bytes: &[u8]) -> (r: Option<Vec<String>>)
    ensures
        r is Some <==> parse_terms(bytes@) is Some,
        r is Some ==> terms_view(r->0@) == parse_terms(bytes@)->0,
{
    let len = bytes.len();
    let mut out: Vec<String> = Vec::new();
    let mut off: usize = 0;
    assert(bytes@.subrange(0, len as int) =~= bytes@);
    assert(terms_view(out@) =~= Seq::<Seq<char>>::empty());
    assert(Seq::<Seq<char>>::empty() + parse_terms(bytes@)->0 =~= parse_terms(bytes@)->0);
    while off < len
        invariant
            len == bytes@.len(),
            off <= len,
            parse_terms(bytes@) == after(terms_view(out@), parse_terms(bytes@.subrange(off as int, len as int))),
        decreases len - off,
    {
        let ghost rest = bytes@.subrange(off as int, len as int);
        if len - off < 4 {
            return None;
        }
        let head = slice_subrange(bytes, off, off + 4);
        assert(rest.subrange(0, 4) =~= head@);
        let n = u32_from_le_bytes(head) as usize;
        if n > len - off - 4 {
            return None;
        }
        let frame = slice_subrange(bytes, off + 4, off + 4 + n);
        assert(rest.subrange(4, 4 + n) =~= frame@);
        match utf8_to_string(frame) {
            None => {
                return None;
            },
            Some(term) => {
                let ghost prev = terms_view(out@);
                out.push(term);
                assert(terms_view(out@) =~= prev.push(term@));
                assert(rest.subrange(4 + n, rest.len() as int) =~= bytes@.subrange(
                    off + 4 + n,
                    len as int,
                ));
                proof {
                    let tail = parse_terms(bytes@.subrange(off + 4 + n, len as int));
                    if tail is Some {
                        assert(prev + (seq![term@] + tail->0) =~= prev.push(term@) + tail->0);
                    }
                }
            },
        }
        off = off + 4 + n;
    }
    assert(bytes@.subrange(len as int, len as int) =~= Seq::<u8>::empty());
    assert(terms_view(out@) + Seq::<Seq<char>>::empty() =~= terms_view(out@));
    Some(out)
}

proof fn lemma_iids_bytes_len(iids: Seq<u64>)
    ensures
        iids_bytes(iids).len() == 8 * iids.len(),
    decreases iids.len(),
{
    lemma_auto_spec_u64_to_from_le_bytes();
    if iids.len() > 0 {
        lemma_iids_bytes_len(iids.drop_last());
    }
}

/// Stored identifier lists are unambiguous: equal bytes come from equal
/// lists, so decoding what `encode_iids` stored gives back the same list.
pub proof fn lemma_iids_bytes_injective(a: Seq<u64>, b: Seq<u64>)
    requires
        iids_bytes(a) == iids_bytes(b),
    ensures
        a == b,
    decreases a.len(),
{
    lemma_auto_spec_u64_to_from_le_bytes();
    lemma_iids_bytes_len(a);
    lemma_iids_bytes_len(b);
    if a.len() > 0 {
        lemma_iids_bytes_len(a.drop_last());
        lemma_iids_bytes_len(b.drop_last());
        let n = 8 * (a.len() - 1);
        let whole = iids_bytes(a);
        assert(whole.subrange(0, n) =~= iids_bytes(a.drop_last()));
        assert(whole.subrange(0, n) =~= iids_bytes(b.drop_last()));
        assert(whole.subrange(n, n + 8) =~= spec_u64_to_le_bytes(a.last()));
        assert(whole.subrange(n, n + 8) =~= spec_u64_to_le_bytes(b.last()));
        assert(spec_u64_from_le_bytes(spec_u64_to_le_bytes(a.last())) == a.last());
        assert(spec_u64_from_le_bytes(spec_u64_to_le_bytes(b.last())) == b.last());
        lemma_iids_bytes_injective(a.drop_last(), b.drop_last());
        assert(a =~= a.drop_last().push(a.last()));
        assert(b =~= b.drop_last().push(b.last()));
    }
}

proof fn lemma_terms_bytes_cons(t: Seq<char>, rest: Seq<Seq<char>>)
    ensures
        terms_bytes(seq![t] + rest) == term_frame(t) + terms_bytes(rest),
    decreases rest.len(),
{
    let all = seq![t] + rest;
    if rest.len() == 0 {
        assert(all.drop_last() =~= Seq::<Seq<char>>::empty());
        assert(terms_bytes(all.drop_last()) == Seq::<u8>::empty());
        assert(terms_bytes(rest) == Seq::<u8>::empty());
        assert(all.last() == t);
        assert(terms_bytes(all) =~= term_frame(t) + terms_bytes(rest));
    } else {
        lemma_terms_bytes_cons(t, rest.drop_last());
        assert(all.drop_last() =~= seq![t] + rest.drop_last());
        assert(all.last() == rest.last());
        assert(terms_bytes(all) == terms_bytes(all.drop_last()) + term_frame(rest.last()));
        assert(terms_bytes(rest) == terms_bytes(rest.drop_last()) + term_frame(rest.last()));
        assert(terms_bytes(all) =~= term_frame(t) + terms_bytes(rest));
    }
}

/// Parsing stored terms gives back the terms, for terms whose UTF-8 fits
/// the four-byte length of a frame.
pub proof fn lemma_terms_round_trip(terms: Seq<Seq<char>>)
    requires
        forall|i: int| 0 <= i < terms.len() ==> encode_utf8(#[trigger] terms[i]).len() <= u32::MAX,
    ensures
        parse_terms(terms_bytes(terms)) == Some(terms),
    decreases terms.len(),
{
    if terms.len() > 0 {
        let t = terms[0];
        let rest = terms.drop_first();
        assert(terms =~= seq![t] + rest);
        lemma_terms_bytes_cons(t, rest);
        assert forall|i: int| 0 <= i < rest.len() implies encode_utf8(#[trigger] rest[i]).len()
            <= u32::MAX by {
            assert(rest[i] == terms[i + 1]);
        }
        lemma_terms_round_trip(rest);
        lemma_auto_spec_u32_to_from_le_bytes();
        let b = terms_bytes(terms);
        let e = encode_utf8(t);
        let n = e.len() as int;
        assert(encode_utf8(terms[0]).len() <= u32::MAX);
        assert(b.subrange(0, 4) =~= spec_u32_to_le_bytes(n as u32));
        assert(spec_u32_from_le_bytes(b.subrange(0, 4)) == n as u32);
        assert(b.subrange(4, 4 + n) =~= e);
        assert(b.subrange(4 + n, b.len() as int) =~= terms_bytes(rest));
        assert(valid_utf8(e));
        assert(decode_utf8(e) == t);
    }
}

} // verus!
