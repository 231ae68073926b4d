//! Encodings of the replies written back to a client.
use vstd::prelude::*;

use crate::bytes::push_bytes;
use crate::decoder::{CR, LF};
use crate::number::{decimal_of, push_decimal, PLUS};
use crate::storage::Pairs;

verus! {

pub const MINUS: u8 = 45;

pub const DOLLAR: u8 = 36;

pub const STAR: u8 = 42;

pub open spec fn crlf() -> Seq<u8> {
    seq![CR, LF]
}

/// `+<text>\r\n`
pub open spec fn simple_string(s: Seq<u8>) -> Seq<u8> {
    seq![PLUS] + s + crlf()
}

/// `$-1\r\n`, the reply for an absent key.
pub open spec fn null_bulk() -> Seq<u8> {
    seq![DOLLAR, MINUS, 49u8, CR, LF]
}

/// `$<length>\r\n<text>\r\n`
pub open spec fn bulk_string(s: Seq<u8>) -> Seq<u8> {
    seq![DOLLAR] + decimal_of(s.len()) + crlf() + s + crlf()
}

/// The bulk strings of each key and its value, in order.
pub open spec fn pairs_body(es: Pairs) -> Seq<u8>
    decreases es.len(),
{
    if es.len() == 0 {
        Seq::empty()
    } else {
        pairs_body(es.drop_last()) + bulk_string(es.last().0) + bulk_string(es.last().1)
    }
}

/// `*<2n>\r\n` followed by the bulk strings of the `n` pairs.
pub open spec fn resp_array(es: Pairs) -> Seq<u8> {
    seq![STAR] + decimal_of(2 * es.len()) + crlf() + pairs_body(es)
}

/// `+PONG\r\n`
pub open spec fn pong() -> Seq<u8> {
    simple_string(seq![80u8, 79u8, 78u8, 71u8])
}

/// `+OK\r\n`
pub open spec fn ok() -> Seq<u8> {
    simple_string(seq![79u8, 75u8])
}

/// `-ERR invalid expire time\r\n`
pub open spec fn invalid_expire() -> Seq<u8> {
    seq![MINUS] + seq![69u8, 82u8, 82u8, 32u8, 105u8, 110u8, 118u8, 97u8, 108u8, 105u8, 100u8, 32u8,
        101u8, 120u8, 112u8, 105u8, 114u8, 101u8, 32u8, 116u8, 105u8, 109u8, 101u8] + crlf()
}

pub fn make_simple_string(s: &[u8]) -> (r: Vec<u8>)
    ensures
        r@ == simple_string(s@),
{
    let mut r: Vec<u8> = Vec::new();
    r.push(PLUS);
    push_bytes(&mut r, s);
    r.push(CR);
    r.push(LF);
    assert(r@ =~= simple_string(s@));
    r
}

pub fn make_pong() -> (r: Vec<u8>)
    ensures
        r@ == pong(),
{
    let r = make_simple_string(&[80u8, 79u8, 78u8, 71u8]);
    assert(r@ =~= pong());
    r
}

pub fn make_ok() -> (r: Vec<u8>)
    ensures
        r@ == ok(),
{
    let r = make_simple_string(&[79u8, 75u8]);
    assert(r@ =~= ok());
    r
}

pub fn make_null_bulk() -> (r: Vec<u8>)
    ensures
        r@ == null_bulk(),
{
    let mut r: Vec<u8> = Vec::new();
    r.push(DOLLAR);
    r.push(MINUS);
    r.push(49u8);
    r.push(CR);
    r.push(LF);
    assert(r@ =~= null_bulk());
    r
}

pub fn make_invalid_expire() -> (r: Vec<u8>)
    ensures
        r@ == invalid_expire(),
{
    let mut r: Vec<u8> = Vec::new();
    r.push(MINUS);
    push_bytes(&mut r, &[69u8, 82u8, 82u8, 32u8, 105u8, 110u8, 118u8, 97u8, 108u8, 105u8, 100u8, 32u8,
        101u8, 120u8, 112u8, 105u8, 114u8, 101u8, 32u8, 116u8, 105u8, 109u8, 101u8]);
    r.push(CR);
    r.push(LF);
    assert(r@ =~= invalid_expire());
    r
}

/// Appends the bulk string of `s`.
pub(crate) fn push_bulk_string(out: &mut Vec<u8>, s: &[u8])
    ensures
        final(out)@ == old(out)@ + bulk_string(s@),
{
    out.push(DOLLAR);
    push_decimal(out, s.len() as u64);
    out.push(CR);
    out.push(LF);
    push_bytes(out, s);
    out.push(CR);
    out.push(LF);
    assert(final(out)@ =~= old(out)@ + bulk_string(s@));
}

} // verus!
