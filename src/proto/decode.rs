//! Requests, split into frames of tokens.
use vstd::prelude::*;
use crate::proto::{flatten, frame_step, request_frames, split_frames, split_lines, strip_cr, tokens};
use crate::text::{chars_of, texts};

verus! {

/// The frames held by the finished frames `done` and the open frame `cur`.
pub open spec fn frames_view(done: Seq<Vec<String>>, cur: Seq<String>) -> Seq<Seq<Seq<char>>> {
    done.map_values(|f: Vec<String>| texts(f@)).push(texts(cur))
}

/// Reads the line `cs[start..end]` into the frames, as `frame_step` does.
fn feed_line(
    s: &str,
    cs: &Vec<char>,
    start: usize,
    end: usize,
    done: &mut Vec<Vec<String>>,
    cur: &mut Vec<String>,
    after_length: &mut bool,
)
    requires
        cs@ == s@,
        start <= end <= cs@.len(),
    ensures
        (frames_view(final(done)@, final(cur)@), *final(after_length)) == frame_step(
            (frames_view(old(done)@, old(cur)@), *old(after_length)),
            cs@.subrange(start as int, end as int),
        ),
{
    let ghost l = cs@.subrange(start as int, end as int);
    let ghost before = frames_view(done@, cur@);
    if *after_length {
        let line = s.substring_char(start, end).to_owned();
        let ghost old_cur = texts(cur@);
        cur.push(line);
        *after_length = false;
        assert(texts(cur@) =~= old_cur.push(l));
        assert(before.last() == old_cur);
        assert(frames_view(done@, cur@) =~= before.update(before.len() - 1, before.last().push(l)));
    } else if end > start && cs[start] == '$' {
        *after_length = true;
    } else if end > start && cs[start] == '*' {
        let mut fresh: Vec<String> = Vec::new();
        std::mem::swap(cur, &mut fresh);
        done.push(fresh);
        assert(texts(cur@) =~= Seq::<Seq<char>>::empty());
        assert(frames_view(done@, cur@) =~= before.push(seq![]));
    }
}

/// The frames of a request buffer. Lines are split at `\n` with a `\r` before
/// it dropped. The line after a bulk-string length prefix `$len` is a token,
/// whatever it starts with; an array header `*N` opens a new frame; any other
/// line does not fit the framing and is dropped. Tokens before the first
/// header form the first frame.
pub fn frames(s: &str) -> (r: Vec<Vec<String>>)
    ensures
        r@.map_values(|f: Vec<String>| texts(f@)) == request_frames(s@),
{
    let cs = chars_of(s);
    let n = cs.len();
    let mut done: Vec<Vec<String>> = Vec::new();
    let mut cur: Vec<String> = Vec::new();
    let mut after_length = false;
    let mut start: usize = 0;
    let ghost mut lines_done: Seq<Seq<char>> = seq![];
    let mut i: usize = 0;
    assert(texts(cur@) =~= Seq::<Seq<char>>::empty());
    assert(done@.map_values(|f: Vec<String>| texts(f@)) =~= Seq::<Seq<Seq<char>>>::empty());
    assert(frames_view(done@, cur@) =~= seq![Seq::<Seq<char>>::empty()]);
    assert(cs@.take(0) =~= Seq::<char>::empty());
    while i < n
        invariant
            cs@ == s@,
            n == cs@.len(),
            start <= i <= n,
            split_lines(cs@.take(i as int)) == (lines_done, cs@.subrange(start as int, i as int)),
            (frames_view(done@, cur@), after_length) == split_frames(lines_done),
        decreases n - i,
    {
        assert(cs@.take(i + 1).drop_last() =~= cs@.take(i as int));
        if cs[i] == '\n' {
            let end = if i > start && cs[i - 1] == '\r' { i - 1 } else { i };
            assert(cs@.subrange(start as int, end as int) =~= strip_cr(cs@.subrange(start as int, i as int)));
            feed_line(s, &cs, start, end, &mut done, &mut cur, &mut after_length);
            proof {
                let l = cs@.subrange(start as int, end as int);
                assert(lines_done.push(l).drop_last() =~= lines_done);
                lines_done = lines_done.push(l);
            }
            start = i + 1;
            assert(cs@.subrange(start as int, (i + 1) as int) =~= seq![]);
        } else {
            assert(cs@.subrange(start as int, (i + 1) as int) =~= cs@.subrange(start as int, i as int).push(cs@[i as int]));
        }
        i = i + 1;
    }
    assert(cs@.take(n as int) =~= cs@);
    if start < n {
        feed_line(s, &cs, start, n, &mut done, &mut cur, &mut after_length);
        assert(lines_done.push(cs@.subrange(start as int, n as int)).drop_last() =~= lines_done);
    }
    let ghost fv = frames_view(done@, cur@);
    done.push(cur);
    assert(done@.map_values(|f: Vec<String>| texts(f@)) =~= fv);
    done
}

/// The tokens of a request buffer: the tokens of its frames, one frame after
/// another, with the array headers and length prefixes left out.
pub fn array(s: &str) -> (r: Vec<String>)
    ensures
        texts(r@) == tokens(s@),
{
    let fs = frames(s);
    let ghost fv = fs@.map_values(|f: Vec<String>| texts(f@));
    let mut out: Vec<String> = Vec::new();
    for i in 0..fs.len()
        invariant
            fv == fs@.map_values(|f: Vec<String>| texts(f@)),
            texts(out@) == flatten(fv.take(i as int)),
    {
        let ghost base = texts(out@);
        let frame = &fs[i];
        assert(fv[i as int] == texts(frame@));
        for j in 0..frame.len()
            invariant
                texts(out@) == base + texts(frame@).take(j as int),
        {
            let ghost prev = texts(out@);
            out.push(frame[j].clone());
            assert(texts(out@) =~= prev.push(frame@[j as int]@));
            assert(texts(frame@).take(j + 1) =~= texts(frame@).take(j as int).push(frame@[j as int]@));
            assert(base + texts(frame@).take(j + 1) =~= (base + texts(frame@).take(j as int)).push(frame@[j as int]@));
        }
        assert(texts(frame@).take(frame@.len() as int) =~= texts(frame@));
        assert(fv.take(i + 1).drop_last() =~= fv.take(i as int));
    }
    assert(fv.take(fs@.len() as int) =~= fv);
    out
}

} // verus!
