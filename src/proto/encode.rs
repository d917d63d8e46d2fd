//! Replies, encoded as wire text.
use vstd::prelude::*;
use vstd::utf8::encode_utf8;
use crate::proto::{array_reply, bulk, bulks, crlf, error_reply, null_reply, simple, CRLF};
use crate::text::decimal_text;

verus! {

/// Encodes an array reply of bulk strings.
pub fn array(items: &[&str]) -> (r: String)
    ensures
        r@ == array_reply(items@.map_values(|s: &str| s@)),
{
    proof {
        reveal_strlit("*");
        reveal_strlit("$");
        reveal_strlit("\r\n");
    }
    let ghost views = items@.map_values(|s: &str| s@);
    let mut msg = String::new();
    msg.append("*");
    let count = decimal_text(items.len() as u64);
    msg.append(count.as_str());
    msg.append(CRLF);
    let ghost head = msg@;
    assert(head == seq!['*'] + crate::text::decimal(items@.len()) + crlf());
    for i in 0..items.len()
        invariant
            views == items@.map_values(|s: &str| s@),
            msg@ == head + bulks(views.take(i as int)),
    {
        proof {
            reveal_strlit("$");
            reveal_strlit("\r\n");
        }
        let item = items[i];
        assert(views[i as int] == item@);
        let len = decimal_text(item.as_bytes().len() as u64);
        let ghost before = msg@;
        msg.append("$");
        msg.append(len.as_str());
        msg.append(CRLF);
        msg.append(item);
        msg.append(CRLF);
        proof {
            assert(len@ == crate::text::decimal(encode_utf8(item@).len()));
            assert(msg@ =~= before + seq!['$'] + len@ + crlf() + item@ + crlf());
            assert(views.take(i + 1).drop_last() =~= views.take(i as int));
            assert(msg@ =~= before + bulk(item@));
        }
    }
    assert(views.take(items@.len() as int) =~= views);
    msg
}

/// Encodes a simple-string reply.
pub fn text(s: &str) -> (r: String)
    ensures
        r@ == simple(s@),
{
    proof {
        reveal_strlit("+");
        reveal_strlit("\r\n");
    }
    let mut msg = String::new();
    msg.append("+");
    msg.append(s);
    msg.append(CRLF);
    assert(msg@ =~= simple(s@));
    msg
}

/// Encodes an error reply.
pub fn error(e: &str) -> (r: String)
    ensures
        r@ == error_reply(e@),
{
    proof {
        reveal_strlit("-Error ");
        reveal_strlit("\r\n");
    }
    let mut msg = String::new();
    msg.append("-Error ");
    msg.append(e);
    msg.append(CRLF);
    assert(msg@ =~= error_reply(e@));
    msg
}

/// Encodes the null reply.
pub fn null() -> (r: String)
    ensures
        r@ == null_reply(),
{
    proof {
        reveal_strlit("$-1");
        reveal_strlit("\r\n");
    }
    let mut msg = String::new();
    msg.append("$-1");
    msg.append(CRLF);
    assert(msg@ =~= null_reply());
    msg
}

} // verus!
