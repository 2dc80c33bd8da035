//! The libretro cheat database: which of its files belong to a game, where their text is
//! fetched from, and reading their `cheatN_desc = "..."` and `cheatN_code = "..."` lines.
use vstd::prelude::*;

use crate::cli::{trim_by, trim_ws, trim_ws_vec};
use crate::text::{chars_of, decimal, ends_with, ends_with_chars, push_decimal, string_from_chars, text_equal};
use crate::paths::{file_stem, path_file_stem};
use super::library::{
    cheat_kind_from_stem, normalize_title, slugify, spec_cheat_kind, spec_normalize_title, spec_slugify,
    spec_strip_cheat_suffix, strip_cheat_suffix, texts, CheatEntry, GameId,
};

verus! {

/// Position of the first `c` in `s`, or -1 when `c` does not occur.
pub open spec fn first_index(s: Seq<char>, c: char) -> int
    decreases s.len(),
{
    if s.len() == 0 {
        -1
    } else if s[0] == c {
        0
    } else {
        let rest = first_index(s.drop_first(), c);
        if rest < 0 { -1 } else { rest + 1 }
    }
}

/// The lines of a text: the pieces between `\n`, without a `\r` right before a `\n`, and no
/// piece after a final `\n`.
pub open spec fn text_lines(t: Seq<char>) -> Seq<Seq<char>>
    decreases t.len(),
{
    if t.len() == 0 {
        seq![]
    } else {
        let i = first_index(t, '\n');
        proof { lemma_first_index_bounds(t, '\n'); }
        if i < 0 {
            seq![t]
        } else {
            let line = t.subrange(0, i);
            let line = if line.len() > 0 && line.last() == '\r' { line.drop_last() } else { line };
            seq![line] + text_lines(t.subrange(i + 1, t.len() as int))
        }
    }
}

/// The value of a string of decimal digits, if all of them are.
pub open spec fn digits_value(s: Seq<char>) -> Option<nat>
    decreases s.len(),
{
    if s.len() == 0 {
        Some(0)
    } else if '0' <= s.last() && s.last() <= '9' {
        match digits_value(s.drop_last()) {
            Some(high) => Some(high * 10 + (s.last() as nat - 48) as nat),
            None => None,
        }
    } else {
        None
    }
}

/// An index as written in a cheat key: decimal digits after an optional `+`, at most
/// `usize::MAX`.
pub open spec fn parse_index(s: Seq<char>) -> Option<usize> {
    let digits = if s.len() > 0 && s[0] == '+' { s.drop_first() } else { s };
    if digits.len() == 0 {
        None
    } else {
        match digits_value(digits) {
            Some(v) if v <= usize::MAX => Some(v as usize),
            _ => None,
        }
    }
}


/// What one line of a cheat file sets: the cheat index, whether it is the description (else
/// the code), and the value without surrounding white space and quotes.
pub open spec fn parse_cheat_line(line: Seq<char>) -> Option<(usize, bool, Seq<char>)> {
    let e = first_index(line, '=');
    if e < 0 {
        None
    } else {
        let key = trim_ws(line.subrange(0, e));
        let value = trim_by(trim_ws(line.subrange(e + 1, line.len() as int)), |c: char| c == '"');
        if key.len() >= 5 && key.subrange(0, 5) == "cheat"@ {
            let rest = key.subrange(5, key.len() as int);
            let u = first_index(rest, '_');
            let number = if u < 0 { rest } else { rest.subrange(0, u) };
            match parse_index(number) {
                Some(index) => if ends_with(key, "_desc"@) {
                    Some((index, true, value))
                } else if ends_with(key, "_code"@) {
                    Some((index, false, value))
                } else {
                    None
                },
                None => None,
            }
        } else {
            None
        }
    }
}

/// The settings of all lines, in order.
pub open spec fn cheat_records(lines: Seq<Seq<char>>) -> Seq<(usize, bool, Seq<char>)>
    decreases lines.len(),
{
    if lines.len() == 0 {
        seq![]
    } else {
        let earlier = cheat_records(lines.drop_last());
        match parse_cheat_line(lines.last()) {
            Some(r) => earlier.push(r),
            None => earlier,
        }
    }
}

/// The last value set for a cheat index and field.
pub open spec fn last_value(records: Seq<(usize, bool, Seq<char>)>, index: usize, desc: bool) -> Option<Seq<char>>
    decreases records.len(),
{
    if records.len() == 0 {
        None
    } else if records.last().0 == index && records.last().1 == desc {
        Some(records.last().2)
    } else {
        last_value(records.drop_last(), index, desc)
    }
}

/// The id of cheat `index` of cheat file `stem` for a game.
pub open spec fn cheat_id(game_id: Seq<char>, stem: Seq<char>, index: usize) -> Seq<char> {
    game_id + "-"@ + spec_slugify(stem + "-"@ + decimal(index as nat))
}

/// Cheat `index` of a file, built from its description and code.
pub open spec fn cheat_from(
    e: CheatEntry,
    game_id: Seq<char>,
    stem: Seq<char>,
    index: usize,
    records: Seq<(usize, bool, Seq<char>)>,
    enabled_ids: Seq<Seq<char>>,
) -> bool {
    &&& e.id@ == cheat_id(game_id, stem, index)
    &&& e.game_id@ == game_id
    &&& last_value(records, index, true) == Some(e.name@)
    &&& last_value(records, index, false) == Some(e.code@)
    &&& e.source@ == "libretro-database"@
    &&& e.kind@ == spec_cheat_kind(stem)
    &&& e.enabled == enabled_ids.contains(cheat_id(game_id, stem, index))
}

/// Indices strictly increasing.
pub open spec fn increasing(s: Seq<usize>) -> bool {
    forall|i: int, j: int| 0 <= i < j < s.len() ==> #[trigger] s[i] < #[trigger] s[j]
}

/// The first `c` of `s` is at `k` when `s[k]` is one and none comes before it.
proof fn lemma_first_index_at(s: Seq<char>, c: char, k: int)
    requires
        0 <= k < s.len(),
        s[k] == c,
        forall|q: int| 0 <= q < k ==> s[q] != c,
    ensures
        first_index(s, c) == k,
    decreases k,
{
    if k > 0 {
        assert forall|q: int| 0 <= q < k - 1 implies s.drop_first()[q] != c by {
            assert(s.drop_first()[q] == s[q + 1]);
        }
        lemma_first_index_at(s.drop_first(), c, k - 1);
    }
}

proof fn lemma_first_index_absent(s: Seq<char>, c: char)
    requires
        forall|q: int| 0 <= q < s.len() ==> s[q] != c,
    ensures
        first_index(s, c) == -1,
    decreases s.len(),
{
    if s.len() > 0 {
        assert forall|q: int| 0 <= q < s.len() - 1 implies s.drop_first()[q] != c by {
            assert(s.drop_first()[q] == s[q + 1]);
        }
        lemma_first_index_absent(s.drop_first(), c);
    }
}

pub proof fn lemma_first_index_bounds(s: Seq<char>, c: char)
    ensures
        -1 <= first_index(s, c) < s.len(),
        first_index(s, c) >= 0 ==> s[first_index(s, c)] == c,
        forall|q: int| 0 <= q < first_index(s, c) ==> s[q] != c,
        first_index(s, c) == -1 ==> forall|q: int| 0 <= q < s.len() ==> s[q] != c,
    decreases s.len(),
{
    if s.len() > 0 && s[0] != c {
        lemma_first_index_bounds(s.drop_first(), c);
        assert forall|q: int| 0 <= q < first_index(s, c) implies s[q] != c by {
            if q > 0 {
                assert(s[q] == s.drop_first()[q - 1]);
            }
        }
        if first_index(s, c) == -1 {
            assert forall|q: int| 0 <= q < s.len() implies s[q] != c by {
                if q > 0 {
                    assert(s[q] == s.drop_first()[q - 1]);
                }
            }
        }
    }
}

/// Position of the first `c` in `v`.
fn first_index_of(v: &Vec<char>, c: char) -> (r: Option<usize>)
    ensures
        match r {
            Some(i) => i as int == first_index(v@, c),
            None => first_index(v@, c) == -1,
        },
{
    let mut i: usize = 0;
    while i < v.len()
        invariant
            i <= v@.len(),
            forall|q: int| 0 <= q < i ==> v@[q] != c,
        decreases v@.len() - i,
    {
        if v[i] == c {
            proof { lemma_first_index_at(v@, c, i as int); }
            return Some(i);
        }
        i = i + 1;
    }
    proof { lemma_first_index_absent(v@, c); }
    None
}

fn slice_of(v: &Vec<char>, from: usize, to: usize) -> (r: Vec<char>)
    requires
        from <= to <= v@.len(),
    ensures
        r@ == v@.subrange(from as int, to as int),
{
    let mut r: Vec<char> = Vec::new();
    let mut i: usize = from;
    while i < to
        invariant
            from <= i <= to,
            to <= v@.len(),
            r@ == v@.subrange(from as int, i as int),
        decreases to - i,
    {
        r.push(v[i]);
        i = i + 1;
    }
    r
}

/// The lines of a text.
pub fn split_lines(text: &Vec<char>) -> (lines: Vec<Vec<char>>)
    ensures
        lines@.map_values(|l: Vec<char>| l@) == text_lines(text@),
{
    let ghost t = text@;
    let n = text.len();
    let mut lines: Vec<Vec<char>> = Vec::new();
    let mut start: usize = 0;
    let mut i: usize = 0;
    assert(t.subrange(0, n as int) =~= t);
    while i < n
        invariant
            n == t.len(),
            text@ == t,
            start <= i <= n,
            forall|q: int| start <= q < i ==> t[q] != '\n',
            lines@.map_values(|l: Vec<char>| l@) + text_lines(t.subrange(start as int, n as int)) == text_lines(t),
        decreases n - i,
    {
        if text[i] == '\n' {
            let ghost rest = t.subrange(start as int, n as int);
            proof {
                assert forall|q: int| 0 <= q < i - start implies rest[q] != '\n' by {
                    assert(rest[q] == t[start + q]);
                }
                lemma_first_index_at(rest, '\n', i - start);
                assert(rest.subrange(0, i - start) =~= t.subrange(start as int, i as int));
                assert(rest.subrange(i - start + 1, rest.len() as int) =~= t.subrange(i + 1, n as int));
            }
            let mut line = slice_of(text, start, i);
            if line.len() > 0 && line[line.len() - 1] == '\r' {
                line.pop();
            }
            let ghost old_lines = lines@.map_values(|l: Vec<char>| l@);
            lines.push(line);
            assert(lines@.map_values(|l: Vec<char>| l@) =~= old_lines.push(line@));
            assert(old_lines.push(line@) + text_lines(t.subrange(i + 1, n as int)) =~= old_lines + (seq![line@] + text_lines(t.subrange(i + 1, n as int))));
            start = i + 1;
        }
        i = i + 1;
    }
    if start < n {
        let ghost rest = t.subrange(start as int, n as int);
        proof {
            assert forall|q: int| 0 <= q < rest.len() implies rest[q] != '\n' by {
                assert(rest[q] == t[start + q]);
            }
            lemma_first_index_absent(rest, '\n');
        }
        let line = slice_of(text, start, n);
        let ghost old_lines = lines@.map_values(|l: Vec<char>| l@);
        lines.push(line);
        assert(lines@.map_values(|l: Vec<char>| l@) =~= old_lines.push(line@));
        assert(old_lines + text_lines(rest) =~= old_lines.push(line@));
    } else {
        assert(t.subrange(start as int, n as int) =~= Seq::<char>::empty());
        assert(lines@.map_values(|l: Vec<char>| l@) + Seq::<Seq<char>>::empty() =~= lines@.map_values(|l: Vec<char>| l@));
    }
    lines
}

/// `s` without `"` at either end.
fn trim_quotes(s: &Vec<char>) -> (r: Vec<char>)
    ensures
        r@ == trim_by(s@, |c: char| c == '"'),
{
    let ghost drop = |c: char| c == '"';
    let n = s.len();
    let mut front: usize = 0;
    while front < n && s[front] == '"'
        invariant
            front <= n,
            n == s@.len(),
            drop == |c: char| c == '"',
            forall|j: int| 0 <= j < front ==> drop(#[trigger] s@[j]),
        decreases n - front,
    {
        front = front + 1;
    }
    proof { crate::cli::lemma_leading_is_first(s@, drop, front as nat); }
    let mut r: Vec<char> = Vec::new();
    if front < n {
        let mut back: usize = 0;
        while back < n - front && s[n - 1 - back] == '"'
            invariant
                front < n,
                back <= n - front,
                n == s@.len(),
                drop == |c: char| c == '"',
                forall|j: int| n - back <= j < n ==> drop(#[trigger] s@[j]),
            decreases n - front - back,
        {
            back = back + 1;
        }
        proof {
            crate::cli::lemma_leading_bound(s@, drop);
            if back == n - front {
                assert(drop(s@[front as int]));
            }
            crate::cli::lemma_trailing_is_last(s@, drop, back as nat);
        }
        r = slice_of(s, front, n - back);
    }
    assert(r@ =~= trim_by(s@, drop));
    r
}

fn starts_with_cheat(key: &Vec<char>) -> (r: bool)
    ensures
        r == (key@.len() >= 5 && key@.subrange(0, 5) == "cheat"@),
{
    let p = chars_of("cheat");
    proof { reveal_strlit("cheat"); }
    if key.len() < 5 {
        return false;
    }
    let mut i: usize = 0;
    while i < 5
        invariant
            i <= 5,
            p@ == "cheat"@,
            p@.len() == 5,
            key@.len() >= 5,
            forall|q: int| 0 <= q < i ==> key@[q] == p@[q],
        decreases 5 - i,
    {
        if key[i] != p[i] {
            assert(key@.subrange(0, 5)[i as int] != p@[i as int]);
            return false;
        }
        i = i + 1;
    }
    assert(key@.subrange(0, 5) =~= p@);
    true
}


proof fn lemma_digits_value_prefix(s: Seq<char>, i: int)
    requires
        0 <= i <= s.len(),
        digits_value(s) is Some,
    ensures
        digits_value(s.subrange(0, i)) is Some,
        digits_value(s.subrange(0, i))->Some_0 <= digits_value(s)->Some_0,
    decreases s.len() - i,
{
    if i == s.len() {
        assert(s.subrange(0, i) =~= s);
    } else {
        assert(s.drop_last().subrange(0, i) =~= s.subrange(0, i));
        lemma_digits_value_prefix(s.drop_last(), i);
    }
}

fn read_index(s: &Vec<char>) -> (r: Option<usize>)
    ensures
        r == parse_index(s@),
{
    let mut start: usize = 0;
    if s.len() > 0 && s[0] == '+' {
        start = 1;
    }
    let ghost digits = s@.subrange(start as int, s@.len() as int);
    assert(digits =~= (if s@.len() > 0 && s@[0] == '+' { s@.drop_first() } else { s@ }));
    if start >= s.len() {
        return None;
    }
    let mut value: usize = 0;
    let mut i: usize = start;
    assert(digits.subrange(0, 0) =~= Seq::<char>::empty());
    while i < s.len()
        invariant
            start <= i <= s@.len(),
            start < s@.len(),
            digits == s@.subrange(start as int, s@.len() as int),
            digits == (if s@.len() > 0 && s@[0] == '+' { s@.drop_first() } else { s@ }),
            digits_value(digits.subrange(0, i - start)) == Some(value as nat),
        decreases s@.len() - i,
    {
        let c = s[i];
        assert(digits.subrange(0, i + 1 - start).drop_last() =~= digits.subrange(0, i - start));
        assert(digits.subrange(0, i + 1 - start).last() == c);
        if !('0' <= c && c <= '9') {
            proof {
                if digits_value(digits) is Some {
                    lemma_digits_value_prefix(digits, i + 1 - start);
                }
            }
            return None;
        }
        let d = (c as u32 - 48) as usize;
        if value > (usize::MAX - d) / 10 {
            proof {
                assert(value * 10 + d > usize::MAX) by (nonlinear_arith)
                    requires value > (usize::MAX - d) / 10, d <= 9;
                if digits_value(digits) is Some {
                    lemma_digits_value_prefix(digits, i + 1 - start);
                }
            }
            return None;
        }
        proof {
            assert(value * 10 + d <= usize::MAX) by (nonlinear_arith)
                requires value <= (usize::MAX - d) / 10, d <= 9;
        }
        value = value * 10 + d;
        i = i + 1;
    }
    assert(digits.subrange(0, i - start) =~= digits);
    Some(value)
}

/// What one line of a cheat file sets.
pub fn read_cheat_line(line: &Vec<char>) -> (r: Option<(usize, bool, Vec<char>)>)
    ensures
        match (r, parse_cheat_line(line@)) {
            (Some((i, d, v)), Some((j, e, w))) => i == j && d == e && v@ == w,
            (None, None) => true,
            _ => false,
        },
{
    let found = first_index_of(line, '=');
    proof { lemma_first_index_bounds(line@, '='); }
    let e = match found {
        Some(e) => e,
        None => return None,
    };
    let n = line.len();
    assert(e < n);
    let key = trim_ws_vec(&slice_of(line, 0, e));
    let value = trim_quotes(&trim_ws_vec(&slice_of(line, e + 1, n)));
    if !starts_with_cheat(&key) {
        return None;
    }
    let rest = slice_of(&key, 5, key.len());
    let number = match first_index_of(&rest, '_') {
        Some(u) => {
            proof { lemma_first_index_bounds(rest@, '_'); }
            slice_of(&rest, 0, u)
        },
        None => rest,
    };
    let index = match read_index(&number) {
        Some(i) => i,
        None => return None,
    };
    if ends_with_chars(&key, "_desc") {
        Some((index, true, value))
    } else if ends_with_chars(&key, "_code") {
        Some((index, false, value))
    } else {
        None
    }
}

/// Insert `x` into strictly increasing `v`, keeping it strictly increasing.
fn insert_index(v: &mut Vec<usize>, x: usize)
    requires
        increasing(old(v)@),
    ensures
        increasing(final(v)@),
        final(v)@.to_set() == old(v)@.to_set().insert(x),
{
    let n = v.len();
    let mut k: usize = 0;
    while k < n && v[k] < x
        invariant
            k <= n,
            n == v@.len(),
            forall|i: int| 0 <= i < k ==> #[trigger] v@[i] < x,
        decreases n - k,
    {
        k = k + 1;
    }
    let ghost before = v@;
    if k < n && v[k] == x {
        assert(before.to_set() =~= before.to_set().insert(x)) by {
            assert(before[k as int] == x);
        }
        return;
    }
    v.insert(k, x);
    proof {
        let after = v@;
        assert(after == before.insert(k as int, x));
        assert forall|i: int, j: int| 0 <= i < j < after.len() implies #[trigger] after[i] < #[trigger] after[j] by {
            if j < k {
            } else if j == k {
            } else if i < k {
                assert(after[j] == before[j - 1]);
                if j - 1 > k {
                    assert(before[k as int] < before[j - 1]);
                }
            } else if i == k {
                assert(after[j] == before[j - 1]);
                if j - 1 > k {
                    assert(before[k as int] < before[j - 1]);
                }
            } else {
                assert(after[i] == before[i - 1] && after[j] == before[j - 1]);
            }
        }
        assert forall|y: usize| after.to_set().contains(y) <==> before.to_set().insert(x).contains(y) by {
            if after.to_set().contains(y) {
                let i = choose|i: int| 0 <= i < after.len() && after[i] == y;
                if i < k {
                    assert(before[i] == y);
                } else if i > k {
                    assert(before[i - 1] == y);
                }
            }
            if before.to_set().contains(y) {
                let i = choose|i: int| 0 <= i < before.len() && before[i] == y;
                if i < k {
                    assert(after[i] == y);
                } else {
                    assert(after[i + 1] == y);
                }
            }
            if y == x {
                assert(after[k as int] == y);
            }
        }
        assert(after.to_set() =~= before.to_set().insert(x));
    }
}

/// The indices with a description among the first `n` records.
pub open spec fn described(records: Seq<(usize, bool, Seq<char>)>, n: int) -> Set<usize> {
    Set::new(|i: usize| exists|k: int| 0 <= k < n && #[trigger] records[k].0 == i && records[k].1)
}

proof fn lemma_last_value_some(records: Seq<(usize, bool, Seq<char>)>, index: usize, desc: bool)
    ensures
        last_value(records, index, desc) is Some
            <==> exists|k: int| 0 <= k < records.len() && #[trigger] records[k].0 == index && records[k].1 == desc,
    decreases records.len(),
{
    if records.len() > 0 {
        lemma_last_value_some(records.drop_last(), index, desc);
        if last_value(records.drop_last(), index, desc) is Some {
            let k = choose|k: int| 0 <= k < records.drop_last().len() && #[trigger] records.drop_last()[k].0 == index && records.drop_last()[k].1 == desc;
            assert(records[k] == records.drop_last()[k]);
        }
        if exists|k: int| 0 <= k < records.len() && #[trigger] records[k].0 == index && records[k].1 == desc {
            let k = choose|k: int| 0 <= k < records.len() && #[trigger] records[k].0 == index && records[k].1 == desc;
            if k < records.len() - 1 {
                assert(records.drop_last()[k] == records[k]);
            }
        }
    }
}

fn find_last_value(records: &Vec<(usize, bool, Vec<char>)>, index: usize, desc: bool) -> (r: Option<Vec<char>>)
    ensures
        match r {
            Some(v) => last_value(records@.map_values(|x: (usize, bool, Vec<char>)| (x.0, x.1, x.2@)), index, desc) == Some(v@),
            None => last_value(records@.map_values(|x: (usize, bool, Vec<char>)| (x.0, x.1, x.2@)), index, desc) is None,
        },
{
    let ghost all = records@.map_values(|x: (usize, bool, Vec<char>)| (x.0, x.1, x.2@));
    let mut i: usize = records.len();
    assert(all.subrange(0, i as int) =~= all);
    while i > 0
        invariant
            i <= records@.len(),
            all == records@.map_values(|x: (usize, bool, Vec<char>)| (x.0, x.1, x.2@)),
            last_value(all, index, desc) == last_value(all.subrange(0, i as int), index, desc),
        decreases i,
    {
        assert(all.subrange(0, i as int).drop_last() =~= all.subrange(0, i - 1));
        let r = &records[i - 1];
        if r.0 == index && r.1 == desc {
            return Some(clone_chars(&r.2));
        }
        i = i - 1;
    }
    None
}

fn clone_chars(v: &Vec<char>) -> (c: Vec<char>)
    ensures
        c@ == v@,
{
    let mut c: Vec<char> = Vec::new();
    let mut i: usize = 0;
    while i < v.len()
        invariant
            i <= v@.len(),
            c@ == v@.subrange(0, i as int),
        decreases v@.len() - i,
    {
        c.push(v[i]);
        i = i + 1;
    }
    assert(v@.subrange(0, i as int) =~= v@);
    c
}

fn text_listed(ids: &Vec<String>, id: &String) -> (r: bool)
    ensures
        r == texts(ids@).contains(id@),
{
    let mut k: usize = 0;
    while k < ids.len()
        invariant
            k <= ids@.len(),
            forall|q: int| 0 <= q < k ==> ids@[q]@ != id@,
        decreases ids@.len() - k,
    {
        if ids[k].eq(id) {
            assert(texts(ids@)[k as int] == id@);
            return true;
        }
        k = k + 1;
    }
    assert forall|q: int| 0 <= q < texts(ids@).len() implies texts(ids@)[q] != id@ by {
        assert(texts(ids@)[q] == ids@[q]@);
    }
    false
}

/// The indices that have both a description and a code among the records.
pub open spec fn complete_indices(records: Seq<(usize, bool, Seq<char>)>) -> Set<usize> {
    Set::new(|i: usize| last_value(records, i, true) is Some && last_value(records, i, false) is Some)
}

/// `cheats` lists, in increasing order, one cheat for each index in `complete_indices`:
/// `cheats[q]` is built for `indices[q]`.
pub open spec fn lists_cheats(
    cheats: Seq<CheatEntry>,
    indices: Seq<usize>,
    game_id: Seq<char>,
    stem: Seq<char>,
    records: Seq<(usize, bool, Seq<char>)>,
    enabled_ids: Seq<Seq<char>>,
) -> bool {
    &&& increasing(indices)
    &&& indices.len() == cheats.len()
    &&& indices.to_set() == complete_indices(records)
    &&& forall|q: int| 0 <= q < cheats.len() ==> cheat_from(#[trigger] cheats[q], game_id, stem, indices[q], records, enabled_ids)
}

/// The cheats of a libretro cheat file for a game: one per described index that also has a
/// code, in increasing index order, each from the last description and code given for its
/// index; a cheat is enabled when its id is among `enabled_ids`.
pub fn parse_libretro_cheats(game_id: &GameId, text: &str, stem: &str, enabled_ids: &Vec<String>) -> (cheats: Vec<CheatEntry>)
    ensures
        exists|indices: Seq<usize>| lists_cheats(cheats@, indices, game_id@, stem@, cheat_records(text_lines(text@)), texts(enabled_ids@)),
{
    let chars = chars_of(text);
    let lines = split_lines(&chars);
    let ghost line_texts = lines@.map_values(|l: Vec<char>| l@);
    let mut records: Vec<(usize, bool, Vec<char>)> = Vec::new();
    let mut i: usize = 0;
    assert(line_texts.subrange(0, 0) =~= Seq::<Seq<char>>::empty());
    while i < lines.len()
        invariant
            i <= lines@.len(),
            line_texts == lines@.map_values(|l: Vec<char>| l@),
            records@.map_values(|x: (usize, bool, Vec<char>)| (x.0, x.1, x.2@)) == cheat_records(line_texts.subrange(0, i as int)),
        decreases lines@.len() - i,
    {
        let ghost before = records@.map_values(|x: (usize, bool, Vec<char>)| (x.0, x.1, x.2@));
        assert(line_texts.subrange(0, i + 1).drop_last() =~= line_texts.subrange(0, i as int));
        assert(line_texts.subrange(0, i + 1).last() == lines@[i as int]@);
        match read_cheat_line(&lines[i]) {
            Some(r) => {
                records.push(r);
                assert(records@.map_values(|x: (usize, bool, Vec<char>)| (x.0, x.1, x.2@)) =~= before.push((r.0, r.1, r.2@)));
            },
            None => {},
        }
        i = i + 1;
    }
    assert(line_texts.subrange(0, i as int) =~= line_texts);
    let ghost recs = records@.map_values(|x: (usize, bool, Vec<char>)| (x.0, x.1, x.2@));
    assert(recs == cheat_records(text_lines(text@)));
    let mut indices: Vec<usize> = Vec::new();
    let mut k: usize = 0;
    assert(indices@.to_set() =~= described(recs, 0));
    while k < records.len()
        invariant
            k <= records@.len(),
            recs == records@.map_values(|x: (usize, bool, Vec<char>)| (x.0, x.1, x.2@)),
            increasing(indices@),
            indices@.to_set() == described(recs, k as int),
        decreases records@.len() - k,
    {
        if records[k].1 {
            insert_index(&mut indices, records[k].0);
        }
        assert(indices@.to_set() =~= described(recs, k + 1)) by {
            assert forall|x: usize| #[trigger] described(recs, k + 1).contains(x) implies indices@.to_set().contains(x) by {
                let q = choose|q: int| 0 <= q < k + 1 && #[trigger] recs[q].0 == x && recs[q].1;
                if q < k {
                    assert(described(recs, k as int).contains(x));
                }
            }
            assert forall|x: usize| indices@.to_set().contains(x) implies #[trigger] described(recs, k + 1).contains(x) by {
                if described(recs, k as int).contains(x) {
                    let q = choose|q: int| 0 <= q < k && #[trigger] recs[q].0 == x && recs[q].1;
                    assert(recs[q].0 == x && recs[q].1);
                } else {
                    assert(recs[k as int].0 == x && recs[k as int].1);
                }
            }
        }
        k = k + 1;
    }
    let mut cheats: Vec<CheatEntry> = Vec::new();
    let ghost mut chosen: Seq<usize> = seq![];
    let kind = cheat_kind_from_stem(stem);
    let mut m: usize = 0;
    while m < indices.len()
        invariant
            m <= indices@.len(),
            increasing(indices@),
            indices@.to_set() == described(recs, recs.len() as int),
            recs == records@.map_values(|x: (usize, bool, Vec<char>)| (x.0, x.1, x.2@)),
            kind@ == spec_cheat_kind(stem@),
            chosen.len() == cheats@.len(),
            forall|q: int| 0 <= q < chosen.len() ==> cheat_from(#[trigger] cheats@[q], game_id@, stem@, chosen[q], recs, texts(enabled_ids@)),
            forall|a: int, b: int| 0 <= a < b < chosen.len() ==> #[trigger] chosen[a] < #[trigger] chosen[b],
            forall|q: int| #![trigger chosen[q]] 0 <= q < chosen.len() ==> exists|p: int| 0 <= p < m && #[trigger] indices@[p] == chosen[q],
            forall|p: int| 0 <= p < m && last_value(recs, #[trigger] indices@[p], false) is Some
                ==> exists|q: int| 0 <= q < chosen.len() && chosen[q] == indices@[p],
        decreases indices@.len() - m,
    {
        let index = indices[m];
        let name = find_last_value(&records, index, true);
        let code = find_last_value(&records, index, false);
        match (name, code) {
            (Some(name), Some(code)) => {
                let mut label = stem.to_owned();
                label.append("-");
                push_decimal(&mut label, index as u64);
                let mut id = game_id.clone();
                id.append("-");
                let slug = slugify(label.as_str());
                id.append(slug.as_str());
                let enabled = text_listed(enabled_ids, &id);
                let entry = CheatEntry {
                    id,
                    game_id: game_id.clone(),
                    name: string_from_chars(&name),
                    code: string_from_chars(&code),
                    source: "libretro-database".to_owned(),
                    kind: kind.clone(),
                    enabled,
                };
                proof {
                    assert(entry.id@ == cheat_id(game_id@, stem@, index));
                    if chosen.len() > 0 {
                        let p = choose|p: int| 0 <= p < m && #[trigger] indices@[p] == chosen[chosen.len() - 1];
                        assert(indices@[p] < indices@[m as int]);
                    }
                }
                cheats.push(entry);
                proof {
                    let old_chosen = chosen;
                    chosen = chosen.push(index);
                    assert forall|a: int, b: int| 0 <= a < b < chosen.len() implies #[trigger] chosen[a] < #[trigger] chosen[b] by {
                        if b == chosen.len() - 1 && a < b {
                            let p = choose|p: int| 0 <= p < m && #[trigger] indices@[p] == old_chosen[a];
                            assert(indices@[p] < indices@[m as int]);
                        }
                    }
                    assert forall|q: int| #![trigger chosen[q]] 0 <= q < chosen.len() implies exists|p: int| 0 <= p < m + 1 && #[trigger] indices@[p] == chosen[q] by {
                        if q == chosen.len() - 1 {
                            assert(indices@[m as int] == chosen[q]);
                        } else {
                            let p = choose|p: int| 0 <= p < m && #[trigger] indices@[p] == old_chosen[q];
                            assert(indices@[p] == chosen[q]);
                        }
                    }
                    assert forall|p: int| 0 <= p < m + 1 && last_value(recs, #[trigger] indices@[p], false) is Some
                        implies exists|q: int| 0 <= q < chosen.len() && chosen[q] == indices@[p] by {
                        if p == m {
                            assert(chosen[chosen.len() - 1] == indices@[p]);
                        } else {
                            let q = choose|q: int| 0 <= q < old_chosen.len() && old_chosen[q] == indices@[p];
                            assert(chosen[q] == indices@[p]);
                        }
                    }
                }
            },
            (None, _) => {
                proof {
                    lemma_last_value_some(recs, index, true);
                    assert(indices@.to_set().contains(index));
                    let q = choose|q: int| 0 <= q < recs.len() && #[trigger] recs[q].0 == index && recs[q].1;
                }
            },
            (Some(_), None) => {
                proof {
                    assert forall|p: int| 0 <= p < m + 1 && last_value(recs, #[trigger] indices@[p], false) is Some
                        implies exists|q: int| 0 <= q < chosen.len() && chosen[q] == indices@[p] by {
                    }
                    assert forall|q: int| #![trigger chosen[q]] 0 <= q < chosen.len() implies exists|p: int| 0 <= p < m + 1 && #[trigger] indices@[p] == chosen[q] by {
                        let p = choose|p: int| 0 <= p < m && #[trigger] indices@[p] == chosen[q];
                        assert(indices@[p] == chosen[q]);
                    }
                }
            },
        }
        m = m + 1;
    }
    proof {
        let want = complete_indices(recs);
        assert forall|x: usize| chosen.to_set().contains(x) <==> want.contains(x) by {
            if chosen.to_set().contains(x) {
                let q = choose|q: int| 0 <= q < chosen.len() && chosen[q] == x;
                assert(cheat_from(cheats@[q], game_id@, stem@, chosen[q], recs, texts(enabled_ids@)));
            }
            if want.contains(x) {
                lemma_last_value_some(recs, x, true);
                let k = choose|k: int| 0 <= k < recs.len() && #[trigger] recs[k].0 == x && recs[k].1 == true;
                assert(described(recs, recs.len() as int).contains(x));
                assert(indices@.to_set().contains(x));
                let p = choose|p: int| 0 <= p < indices@.len() && indices@[p] == x;
                let q = choose|q: int| 0 <= q < chosen.len() && chosen[q] == indices@[p];
                assert(chosen[q] == x);
            }
        }
        assert(chosen.to_set() =~= want);
        assert(lists_cheats(cheats@, chosen, game_id@, stem@, recs, texts(enabled_ids@)));
    }
    cheats
}

/// The folder of the libretro database that holds this console's cheat files.
pub open spec fn console_cheat_dir() -> Seq<char> {
    "cht/Nintendo - Super Nintendo Entertainment System/"@
}

/// A tree entry of the libretro database is one of this console's cheat files: a file
/// (`blob`) in the console's folder whose name ends in `.cht`.
pub open spec fn is_console_cheat_file(path: Seq<char>, kind: Seq<char>) -> bool {
    &&& path.len() >= console_cheat_dir().len()
    &&& path.subrange(0, console_cheat_dir().len() as int) == console_cheat_dir()
    &&& ends_with(path, ".cht"@)
    &&& kind == "blob"@
}

fn starts_with_chars(s: &Vec<char>, prefix: &str) -> (r: bool)
    ensures
        r == (s@.len() >= prefix@.len() && s@.subrange(0, prefix@.len() as int) == prefix@),
{
    let p = chars_of(prefix);
    if s.len() < p.len() {
        return false;
    }
    let mut i: usize = 0;
    while i < p.len()
        invariant
            i <= p@.len(),
            p@ == prefix@,
            s@.len() >= p@.len(),
            forall|q: int| 0 <= q < i ==> s@[q] == p@[q],
        decreases p@.len() - i,
    {
        if s[i] != p[i] {
            assert(s@.subrange(0, p@.len() as int)[i as int] != prefix@[i as int]);
            return false;
        }
        i = i + 1;
    }
    assert(s@.subrange(0, p@.len() as int) =~= prefix@);
    true
}

/// The file stem of a libretro database tree entry when it is one of this console's cheat
/// files, `None` otherwise.
pub fn libretro_cheat_stem(path: &str, kind: &str) -> (r: Option<String>)
    ensures
        match r {
            Some(stem) => is_console_cheat_file(path@, kind@) && file_stem(path@) == Some(stem@),
            None => !is_console_cheat_file(path@, kind@) || file_stem(path@) is None,
        },
{
    let p = chars_of(path);
    let wanted = starts_with_chars(&p, "cht/Nintendo - Super Nintendo Entertainment System/")
        && ends_with_chars(&p, ".cht") && text_equal(kind, "blob");
    if !wanted {
        return None;
    }
    path_file_stem(path)
}

/// A cheat file belongs to a game when its name, without the family and diff suffixes,
/// normalizes to the game's normalized title.
pub fn cheat_file_matches_title(stem: &str, display_title: &str) -> (r: bool)
    ensures
        r == (spec_normalize_title(spec_strip_cheat_suffix(stem@)) == spec_normalize_title(display_title@)),
{
    let base = strip_cheat_suffix(stem);
    let a = normalize_title(base.as_str());
    let b = normalize_title(display_title);
    a.eq(&b)
}

/// A byte that percent-encoding leaves as it is: an ASCII letter or digit, `-`, `.`, `_` or `~`.
pub open spec fn url_unreserved(b: u8) -> bool {
    ||| 48 <= b <= 57
    ||| 65 <= b <= 90
    ||| 97 <= b <= 122
    ||| b == 45 || b == 46 || b == 95 || b == 126
}

/// An upper-case hexadecimal digit.
pub open spec fn upper_hex_digit(d: nat) -> char {
    if d < 10 { (48 + d) as char } else { (55 + d) as char }
}

/// Every byte percent-encoded as `%XX` (upper-case hex) but the unreserved ones.
pub open spec fn percent_encoded(bytes: Seq<u8>) -> Seq<char>
    decreases bytes.len(),
{
    if bytes.len() == 0 {
        seq![]
    } else {
        let b = bytes[0];
        let head = if url_unreserved(b) {
            seq![b as char]
        } else {
            seq!['%', upper_hex_digit((b / 16) as nat), upper_hex_digit((b % 16) as nat)]
        };
        head + percent_encoded(bytes.drop_first())
    }
}

/// `urlencoding::encode`: the UTF-8 bytes of `text`, each percent-encoded unless it is an
/// ASCII letter or digit or one of `-`, `.`, `_`, `~`.
#[verifier::external_body]
fn url_encode(text: &str) -> (r: String)
    ensures
        r@ == percent_encoded(vstd::utf8::encode_utf8(text@)),
{
    urlencoding::encode(text).into_owned()
}

/// The address of a cheat file's raw text in the libretro database.
pub open spec fn cheat_file_url(path: Seq<char>) -> Seq<char> {
    "https://raw.githubusercontent.com/libretro/libretro-database/master/"@ + percent_encoded(vstd::utf8::encode_utf8(path))
}

/// The address of a cheat file's raw text in the libretro database.
pub fn libretro_cheat_url(path: &str) -> (url: String)
    ensures
        url@ == cheat_file_url(path@),
{
    let mut url = "https://raw.githubusercontent.com/libretro/libretro-database/master/".to_owned();
    let encoded = url_encode(path);
    url.append(encoded.as_str());
    url
}

} // verus!
