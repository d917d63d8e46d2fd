//! The RESP-style wire format: replies as text, requests as lines of tokens.
use vstd::prelude::*;
use vstd::utf8::encode_utf8;
use crate::text::decimal;

pub mod encode;
pub mod decode;

verus! {

/// The line terminator.
pub const CRLF: &'static str = "\r\n";

pub open spec fn crlf() -> Seq<char> {
    seq!['\r', '\n']
}

/// A simple-string reply: `+text\r\n`.
pub open spec fn simple(s: Seq<char>) -> Seq<char> {
    seq!['+'] + s + crlf()
}

/// An error reply: `-Error msg\r\n`.
pub open spec fn error_reply(msg: Seq<char>) -> Seq<char> {
    seq!['-', 'E', 'r', 'r', 'o', 'r', ' '] + msg + crlf()
}

/// The null bulk reply: `$-1\r\n`.
pub open spec fn null_reply() -> Seq<char> {
    seq!['$', '-', '1'] + crlf()
}

/// One bulk string: `$len\r\nitem\r\n`, its length counted in UTF-8 bytes.
pub open spec fn bulk(item: Seq<char>) -> Seq<char> {
    seq!['$'] + decimal(encode_utf8(item).len()) + crlf() + item + crlf()
}

/// The bulk strings of `items`, one after another.
pub open spec fn bulks(items: Seq<Seq<char>>) -> Seq<char>
    decreases items.len(),
{
    if items.len() == 0 {
        seq![]
    } else {
        bulks(items.drop_last()) + bulk(items.last())
    }
}

/// An array reply: `*N\r\n` and then each item as a bulk string.
pub open spec fn array_reply(items: Seq<Seq<char>>) -> Seq<char> {
    seq!['*'] + decimal(items.len()) + crlf() + bulks(items)
}

/// Drops one `\r` that ends a line.
pub open spec fn strip_cr(l: Seq<char>) -> Seq<char> {
    if l.len() > 0 && l.last() == '\r' {
        l.drop_last()
    } else {
        l
    }
}

/// Reads `s` from the left: the lines that a `\n` has completed, each without
/// its `\r\n` or `\n`, and the line still open.
pub open spec fn split_lines(s: Seq<char>) -> (Seq<Seq<char>>, Seq<char>)
    decreases s.len(),
{
    if s.len() == 0 {
        (seq![], seq![])
    } else {
        let (done, open) = split_lines(s.drop_last());
        if s.last() == '\n' {
            (done.push(strip_cr(open)), seq![])
        } else {
            (done, open.push(s.last()))
        }
    }
}

/// The lines of `s`: split at `\n`, a `\r` before it dropped, and a last line
/// without a terminator kept when it is not empty.
pub open spec fn lines(s: Seq<char>) -> Seq<Seq<char>> {
    let (done, open) = split_lines(s);
    if open.len() == 0 {
        done
    } else {
        done.push(open)
    }
}

/// Whether a line is a bulk-string length prefix.
pub open spec fn is_length_line(l: Seq<char>) -> bool {
    l.len() > 0 && l[0] == '$'
}

/// Whether a line is an array header `*N`, which opens a request frame.
pub open spec fn is_header_line(l: Seq<char>) -> bool {
    l.len() > 0 && l[0] == '*'
}

/// Reads one more line into the frames read so far. The line after a length
/// prefix is a token of the current frame, whatever it holds; otherwise a
/// length prefix announces a token, an array header opens a new frame, and
/// any other line does not fit the framing and is dropped.
pub open spec fn frame_step(st: (Seq<Seq<Seq<char>>>, bool), l: Seq<char>) -> (Seq<Seq<Seq<char>>>, bool) {
    let (fs, after_length) = st;
    if after_length {
        (fs.update(fs.len() - 1, fs.last().push(l)), false)
    } else if is_length_line(l) {
        (fs, true)
    } else if is_header_line(l) {
        (fs.push(seq![]), false)
    } else {
        (fs, false)
    }
}

/// The frames that the lines `ls` make, read from the left, and whether the
/// last line read was a length prefix. The first frame holds the tokens that
/// come before any array header.
pub open spec fn split_frames(ls: Seq<Seq<char>>) -> (Seq<Seq<Seq<char>>>, bool)
    decreases ls.len(),
{
    if ls.len() == 0 {
        (seq![seq![]], false)
    } else {
        frame_step(split_frames(ls.drop_last()), ls.last())
    }
}

/// The frames of a request buffer, each the tokens of one request.
pub open spec fn request_frames(s: Seq<char>) -> Seq<Seq<Seq<char>>> {
    split_frames(lines(s)).0
}

/// The tokens of `fs`, one frame after another.
pub open spec fn flatten(fs: Seq<Seq<Seq<char>>>) -> Seq<Seq<char>>
    decreases fs.len(),
{
    if fs.len() == 0 {
        seq![]
    } else {
        flatten(fs.drop_last()) + fs.last()
    }
}

/// The tokens of a request buffer, in order.
pub open spec fn tokens(s: Seq<char>) -> Seq<Seq<char>> {
    flatten(request_frames(s))
}

/// The lines that `bulks(items)` splits into: for each item its length prefix,
/// then the item.
pub open spec fn bulk_lines(items: Seq<Seq<char>>) -> Seq<Seq<char>>
    decreases items.len(),
{
    if items.len() == 0 {
        seq![]
    } else {
        bulk_lines(items.drop_last()) + seq![
            seq!['$'] + decimal(encode_utf8(items.last()).len()),
            items.last(),
        ]
    }
}

proof fn lemma_split_without_newline(x: Seq<char>)
    requires
        !x.contains('\n'),
    ensures
        split_lines(x) == (Seq::<Seq<char>>::empty(), x),
    decreases x.len(),
{
    if x.len() > 0 {
        assert(!x.drop_last().contains('\n')) by {
            if x.drop_last().contains('\n') {
                let i = choose|i: int| 0 <= i < x.drop_last().len() && x.drop_last()[i] == '\n';
                assert(x[i] == '\n');
            }
        }
        lemma_split_without_newline(x.drop_last());
        assert(x.last() != '\n') by {
            assert(x[x.len() - 1] == x.last());
        }
        assert(x.drop_last().push(x.last()) =~= x);
    }
}

proof fn lemma_split_concat(a: Seq<char>, b: Seq<char>)
    requires
        split_lines(a).1.len() == 0,
    ensures
        split_lines(a + b) == (split_lines(a).0 + split_lines(b).0, split_lines(b).1),
    decreases b.len(),
{
    if b.len() == 0 {
        assert(a + b =~= a);
        assert(split_lines(a).0 + seq![] =~= split_lines(a).0);
    } else {
        lemma_split_concat(a, b.drop_last());
        assert((a + b).drop_last() =~= a + b.drop_last());
        assert((a + b).last() == b.last());
        let (db, ob) = split_lines(b.drop_last());
        if b.last() == '\n' {
            assert(split_lines(a).0 + db.push(strip_cr(ob)) =~= (split_lines(a).0 + db).push(
                strip_cr(ob),
            ));
        }
    }
}

proof fn lemma_split_line(x: Seq<char>)
    requires
        !x.contains('\n'),
    ensures
        split_lines(x + crlf()) == (seq![x], Seq::<char>::empty()),
{
    let y = x.push('\r');
    assert(!y.contains('\n')) by {
        if y.contains('\n') {
            let i = choose|i: int| 0 <= i < y.len() && y[i] == '\n';
            if i < x.len() {
                assert(x[i] == '\n');
            }
        }
    }
    lemma_split_without_newline(y);
    assert((x + crlf()).drop_last() =~= y);
    assert(y.drop_last() =~= x);
    assert(seq![].push(x) =~= seq![x]);
}

proof fn lemma_decimal_digits(n: nat)
    ensures
        !decimal(n).contains('\n'),
        decimal(n).len() > 0,
    decreases n,
{
    if n >= 10 {
        lemma_decimal_digits(n / 10);
        let d = decimal(n / 10);
        assert(crate::text::digit_char(n % 10) != '\n');
        if decimal(n).contains('\n') {
            let i = choose|i: int| 0 <= i < decimal(n).len() && decimal(n)[i] == '\n';
            if i < d.len() {
                assert(d[i] == '\n');
            }
        }
    } else {
        assert(crate::text::digit_char(n) != '\n');
        assert(decimal(n) == seq![crate::text::digit_char(n)]);
    }
}

proof fn lemma_prefixed_line(c: char, n: nat)
    requires
        c != '\n',
    ensures
        !(seq![c] + decimal(n)).contains('\n'),
{
    lemma_decimal_digits(n);
    let l = seq![c] + decimal(n);
    if l.contains('\n') {
        let i = choose|i: int| 0 <= i < l.len() && l[i] == '\n';
        if i > 0 {
            assert(decimal(n)[i - 1] == '\n');
        }
    }
}

proof fn lemma_split_bulks(items: Seq<Seq<char>>)
    requires
        forall|i: int| 0 <= i < items.len() ==> !(#[trigger] items[i]).contains('\n'),
    ensures
        split_lines(bulks(items)) == (bulk_lines(items), Seq::<char>::empty()),
    decreases items.len(),
{
    if items.len() > 0 {
        let rest = items.drop_last();
        let x = items.last();
        assert(forall|i: int| 0 <= i < rest.len() ==> #[trigger] rest[i] == items[i]);
        lemma_split_bulks(rest);
        assert(!x.contains('\n')) by {
            assert(items[items.len() - 1] == x);
        }
        let prefix = seq!['$'] + decimal(encode_utf8(x).len());
        lemma_prefixed_line('$', encode_utf8(x).len());
        lemma_split_line(prefix);
        lemma_split_line(x);
        assert(bulk(x) =~= (prefix + crlf()) + (x + crlf()));
        lemma_split_concat(prefix + crlf(), x + crlf());
        lemma_split_concat(bulks(rest), bulk(x));
        assert(seq![prefix] + seq![x] =~= seq![prefix, x]);
    }
}

proof fn lemma_frames_of_bulk_lines(head: Seq<char>, items: Seq<Seq<char>>)
    requires
        is_header_line(head),
        !is_length_line(head),
    ensures
        split_frames(seq![head] + bulk_lines(items)) == (seq![Seq::<Seq<char>>::empty(), items], false),
    decreases items.len(),
{
    if items.len() == 0 {
        assert(seq![head] + bulk_lines(items) =~= seq![head]);
        assert(seq![head].drop_last() =~= Seq::<Seq<char>>::empty());
        assert(items =~= Seq::<Seq<char>>::empty());
        assert(split_frames(Seq::<Seq<char>>::empty()) == (seq![Seq::<Seq<char>>::empty()], false));
        assert(split_frames(seq![head]) == frame_step(split_frames(Seq::<Seq<char>>::empty()), head));
        assert(seq![Seq::<Seq<char>>::empty()].push(seq![]) =~= seq![Seq::<Seq<char>>::empty(), items]);
    } else {
        let rest = items.drop_last();
        let x = items.last();
        lemma_frames_of_bulk_lines(head, rest);
        let prefix = seq!['$'] + decimal(encode_utf8(x).len());
        let ls = seq![head] + bulk_lines(items);
        let base = seq![head] + bulk_lines(rest);
        assert(ls =~= base.push(prefix).push(x));
        assert(ls.drop_last() =~= base.push(prefix));
        assert(base.push(prefix).drop_last() =~= base);
        assert(is_length_line(prefix));
        assert(split_frames(base.push(prefix)) == frame_step(split_frames(base), prefix));
        assert(split_frames(base.push(prefix)) == (seq![Seq::<Seq<char>>::empty(), rest], true));
        assert(ls.last() == x);
        assert(split_frames(ls) == frame_step(split_frames(base.push(prefix)), x));
        assert(rest.push(x) =~= items);
        let fs = seq![Seq::<Seq<char>>::empty(), rest];
        assert(fs.len() == 2 && fs.last() == rest);
        assert(fs.update(1, rest.push(x)) =~= seq![Seq::<Seq<char>>::empty(), items]);
    }
}

/// Decoding an encoded array reply gives back its items as one frame, as long
/// as no item holds a line feed; an item may start with any character.
pub proof fn lemma_array_round_trip(items: Seq<Seq<char>>)
    requires
        forall|i: int| 0 <= i < items.len() ==> !(#[trigger] items[i]).contains('\n'),
    ensures
        request_frames(array_reply(items)) == seq![Seq::<Seq<char>>::empty(), items],
        tokens(array_reply(items)) == items,
{
    let head = seq!['*'] + decimal(items.len());
    lemma_prefixed_line('*', items.len());
    lemma_split_line(head);
    lemma_split_bulks(items);
    assert(array_reply(items) =~= (head + crlf()) + bulks(items));
    lemma_split_concat(head + crlf(), bulks(items));
    assert(seq![head] + bulk_lines(items) =~= seq![head] + bulk_lines(items));
    lemma_frames_of_bulk_lines(head, items);
    let fs = seq![Seq::<Seq<char>>::empty(), items];
    assert(fs.drop_last() =~= seq![Seq::<Seq<char>>::empty()]);
    assert(seq![Seq::<Seq<char>>::empty()].drop_last() =~= Seq::<Seq<Seq<char>>>::empty());
    assert(flatten(Seq::<Seq<Seq<char>>>::empty()) =~= Seq::<Seq<char>>::empty());
    assert(flatten(seq![Seq::<Seq<char>>::empty()]) =~= Seq::<Seq<char>>::empty());
    assert(Seq::<Seq<char>>::empty() + items =~= items);
}

} // verus!
