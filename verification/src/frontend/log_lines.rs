//! The desktop shell's log pane: bytes written by the logger are cut into lines, and the most
//! recent lines are kept for display.
use vstd::prelude::*;

use crate::cli::{trim_ws, trim_ws_vec};
use crate::text::{chars_of, string_from_chars};
use super::library::texts;

verus! {

/// How many lines the log pane keeps.
pub const MAX_LOG_LINES: usize = 2000;

/// What `String::from_utf8_lossy` makes of a byte sequence.
pub uninterp spec fn utf8_lossy(bytes: Seq<u8>) -> Seq<char>;

/// `String::from_utf8_lossy`: the bytes decoded as UTF-8, with each invalid sequence replaced
/// by U+FFFD. The result is named, not spelled out.
#[verifier::external_body]
fn decode_lossy(bytes: &[u8]) -> (s: String)
    ensures
        s@ == utf8_lossy(bytes@),
{
    String::from_utf8_lossy(bytes).into_owned()
}

/// Position of the first line feed in `b`, or -1 when there is none.
pub open spec fn first_newline(b: Seq<u8>) -> int
    decreases b.len(),
{
    if b.len() == 0 {
        -1
    } else if b[0] == 10 {
        0
    } else {
        let rest = first_newline(b.drop_first());
        if rest < 0 { -1 } else { rest + 1 }
    }
}

pub proof fn lemma_first_newline(b: Seq<u8>)
    ensures
        -1 <= first_newline(b) < b.len(),
        first_newline(b) >= 0 ==> b[first_newline(b)] == 10,
        forall|q: int| 0 <= q < first_newline(b) ==> b[q] != 10,
        first_newline(b) == -1 ==> forall|q: int| 0 <= q < b.len() ==> b[q] != 10,
    decreases b.len(),
{
    if b.len() > 0 && b[0] != 10 {
        lemma_first_newline(b.drop_first());
        assert forall|q: int| 0 <= q < first_newline(b) implies b[q] != 10 by {
            if q > 0 {
                assert(b[q] == b.drop_first()[q - 1]);
            }
        }
        if first_newline(b) == -1 {
            assert forall|q: int| 0 <= q < b.len() implies b[q] != 10 by {
                if q > 0 {
                    assert(b[q] == b.drop_first()[q - 1]);
                }
            }
        }
    }
}

proof fn lemma_first_newline_at(b: Seq<u8>, k: int)
    requires
        0 <= k <= b.len(),
        forall|q: int| 0 <= q < k ==> b[q] != 10,
    ensures
        k < b.len() && b[k] == 10 ==> first_newline(b) == k,
        k == b.len() ==> first_newline(b) == -1,
    decreases k,
{
    if k > 0 {
        assert forall|q: int| 0 <= q < k - 1 implies b.drop_first()[q] != 10 by {
            assert(b.drop_first()[q] == b[q + 1]);
        }
        lemma_first_newline_at(b.drop_first(), k - 1);
    }
}

/// The complete lines of `b`, each with its line feed.
pub open spec fn complete_lines(b: Seq<u8>) -> Seq<Seq<u8>>
    decreases b.len(),
{
    let i = first_newline(b);
    if i < 0 {
        seq![]
    } else {
        proof { lemma_first_newline(b); }
        seq![b.subrange(0, i + 1)] + complete_lines(b.subrange(i + 1, b.len() as int))
    }
}

/// What follows the last line feed of `b`: a line not finished yet.
pub open spec fn unfinished(b: Seq<u8>) -> Seq<u8>
    decreases b.len(),
{
    let i = first_newline(b);
    if i < 0 {
        b
    } else {
        proof { lemma_first_newline(b); }
        unfinished(b.subrange(i + 1, b.len() as int))
    }
}

/// The lines shown for a sequence of complete lines: each decoded and trimmed, empty ones
/// left out.
pub open spec fn shown_lines(lines: Seq<Seq<u8>>) -> Seq<Seq<char>>
    decreases lines.len(),
{
    if lines.len() == 0 {
        seq![]
    } else {
        let earlier = shown_lines(lines.drop_last());
        let text = trim_ws(utf8_lossy(lines.last()));
        if text.len() == 0 { earlier } else { earlier.push(text) }
    }
}

/// The last `n` lines of `lines`, all of them when there are fewer.
pub open spec fn last_lines(lines: Seq<Seq<char>>, n: nat) -> Seq<Seq<char>> {
    if lines.len() <= n { lines } else { lines.subrange(lines.len() - n, lines.len() as int) }
}

/// The lines of a log pane and the bytes of a line still being written.
pub struct LogLines {
    pending: Vec<u8>,
    lines: Vec<String>,
}

impl LogLines {
    /// The kept lines, oldest first.
    pub closed spec fn lines_view(&self) -> Seq<Seq<char>> {
        texts(self.lines@)
    }

    /// The bytes of the line still being written.
    pub closed spec fn pending_view(&self) -> Seq<u8> {
        self.pending@
    }

    /// At most `MAX_LOG_LINES` lines are kept, and no pending byte is a line feed.
    pub closed spec fn wf(&self) -> bool {
        &&& self.lines@.len() <= MAX_LOG_LINES
        &&& forall|q: int| 0 <= q < self.pending@.len() ==> self.pending@[q] != 10
    }

    /// An empty pane.
    pub fn new() -> (l: LogLines)
        ensures
            l.wf(),
            l.lines_view().len() == 0,
            l.pending_view().len() == 0,
    {
        LogLines { pending: Vec::new(), lines: Vec::new() }
    }

    /// The kept lines, oldest first.
    pub fn lines(&self) -> (l: &Vec<String>)
        ensures
            texts(l@) == self.lines_view(),
    {
        &self.lines
    }

    /// Take in bytes written by the logger: every line they complete is decoded, trimmed and,
    /// unless empty, appended; only the most recent `MAX_LOG_LINES` lines are kept.
    pub fn push_bytes(&mut self, buf: &[u8])
        requires
            old(self).wf(),
        ensures
            final(self).wf(),
            final(self).pending_view() == unfinished(old(self).pending_view() + buf@),
            final(self).lines_view() == last_lines(
                old(self).lines_view() + shown_lines(complete_lines(old(self).pending_view() + buf@)),
                MAX_LOG_LINES as nat,
            ),
    {
        let ghost all = self.pending@ + buf@;
        let ghost old_lines = texts(self.lines@);
        let mut bytes: Vec<u8> = Vec::new();
        std::mem::swap(&mut bytes, &mut self.pending);
        let mut k: usize = 0;
        while k < buf.len()
            invariant
                k <= buf@.len(),
                bytes@ == all.subrange(0, (all.len() - buf@.len()) + k),
                all == old(self).pending@ + buf@,
            decreases buf@.len() - k,
        {
            bytes.push(buf[k]);
            k = k + 1;
        }
        assert(bytes@ =~= all);
        let n = bytes.len();
        let mut start: usize = 0;
        let mut i: usize = 0;
        let ghost mut added: Seq<Seq<char>> = seq![];
        assert(all.subrange(0, n as int) =~= all);
        assert(old_lines + added =~= old_lines);
        while i < n
            invariant
                n == all.len(),
                bytes@ == all,
                start <= i <= n,
                forall|q: int| start <= q < i ==> all[q] != 10,
                shown_lines(complete_lines(all)) == added + shown_lines(complete_lines(all.subrange(start as int, n as int))),
                unfinished(all) == unfinished(all.subrange(start as int, n as int)),
                self.lines@.len() <= MAX_LOG_LINES,
                texts(self.lines@) == last_lines(old_lines + added, MAX_LOG_LINES as nat),
            decreases n - i,
        {
            if bytes[i] == 10 {
                let ghost rest = all.subrange(start as int, n as int);
                let ghost line_bytes = all.subrange(start as int, i + 1);
                let ghost after = all.subrange(i + 1, n as int);
                proof {
                    assert forall|q: int| 0 <= q < i - start implies rest[q] != 10 by {
                        assert(rest[q] == all[start + q]);
                    }
                    lemma_first_newline_at(rest, i - start);
                    assert(rest.subrange(0, i - start + 1) =~= line_bytes);
                    assert(rest.subrange(i - start + 1, rest.len() as int) =~= after);
                    lemma_shown_lines_prepend(line_bytes, complete_lines(after));
                }
                let line = decode_lossy(slice_bytes(&bytes, start, i + 1).as_slice());
                let trimmed = string_from_chars(&trim_ws_vec(&chars_of(line.as_str())));
                if trimmed.as_str().unicode_len() > 0 {
                    let ghost before = texts(self.lines@);
                    let ghost t = trimmed@;
                    self.lines.push(trimmed);
                    assert(texts(self.lines@) =~= before.push(t));
                    if self.lines.len() > MAX_LOG_LINES {
                        let ghost full = texts(self.lines@);
                        self.lines.remove(0);
                        assert(texts(self.lines@) =~= full.subrange(1, full.len() as int));
                    }
                    proof {
                        lemma_last_lines_push(old_lines + added, t, MAX_LOG_LINES as nat);
                        assert((old_lines + added).push(t) =~= old_lines + added.push(t));
                        assert(added.push(t) + shown_lines(complete_lines(after)) =~= added + (seq![t] + shown_lines(complete_lines(after))));
                        added = added.push(t);
                    }
                }
                start = i + 1;
            }
            i = i + 1;
        }
        let ghost rest = all.subrange(start as int, n as int);
        proof {
            assert forall|q: int| 0 <= q < rest.len() implies rest[q] != 10 by {
                assert(rest[q] == all[start + q]);
            }
            lemma_first_newline_at(rest, rest.len() as int);
            assert(shown_lines(complete_lines(rest)) =~= Seq::<Seq<char>>::empty());
            assert(added + Seq::<Seq<char>>::empty() =~= added);
        }
        self.pending = slice_bytes(&bytes, start, n);
    }
}

/// Keeping the last `n` lines after each new line is keeping the last `n` of them all.
proof fn lemma_last_lines_push(lines: Seq<Seq<char>>, x: Seq<char>, n: nat)
    requires
        n > 0,
    ensures
        last_lines(last_lines(lines, n).push(x), n) == last_lines(lines.push(x), n),
{
    let kept = last_lines(lines, n);
    if lines.len() <= n {
        assert(kept == lines);
    } else {
        assert(kept.push(x).len() == n + 1);
        assert(last_lines(kept.push(x), n) =~= last_lines(lines.push(x), n));
    }
}

/// `b[from..to]`.
fn slice_bytes(b: &Vec<u8>, from: usize, to: usize) -> (r: Vec<u8>)
    requires
        from <= to <= b@.len(),
    ensures
        r@ == b@.subrange(from as int, to as int),
{
    let mut r: Vec<u8> = Vec::new();
    let mut i: usize = from;
    while i < to
        invariant
            from <= i <= to,
            to <= b@.len(),
            r@ == b@.subrange(from as int, i as int),
        decreases to - i,
    {
        r.push(b[i]);
        i = i + 1;
    }
    r
}

/// The lines shown for a first line followed by others.
proof fn lemma_shown_lines_prepend(first: Seq<u8>, rest: Seq<Seq<u8>>)
    ensures
        shown_lines(seq![first] + rest) == (if trim_ws(utf8_lossy(first)).len() == 0 {
            shown_lines(rest)
        } else {
            seq![trim_ws(utf8_lossy(first))] + shown_lines(rest)
        }),
    decreases rest.len(),
{
    let t0 = trim_ws(utf8_lossy(first));
    if rest.len() == 0 {
        assert((seq![first] + rest).drop_last() =~= Seq::<Seq<u8>>::empty());
        assert((seq![first] + rest).last() == first);
        assert(shown_lines(Seq::<Seq<u8>>::empty()) == Seq::<Seq<char>>::empty());
        assert(Seq::<Seq<char>>::empty().push(t0) =~= seq![t0] + Seq::<Seq<char>>::empty());
    } else {
        lemma_shown_lines_prepend(first, rest.drop_last());
        assert((seq![first] + rest).drop_last() =~= seq![first] + rest.drop_last());
        assert((seq![first] + rest).last() == rest.last());
        let t = trim_ws(utf8_lossy(rest.last()));
        if trim_ws(utf8_lossy(first)).len() != 0 && t.len() != 0 {
            assert((seq![trim_ws(utf8_lossy(first))] + shown_lines(rest.drop_last())).push(t)
                =~= seq![trim_ws(utf8_lossy(first))] + shown_lines(rest.drop_last()).push(t));
        }
    }
}

} // verus!
