//! Host path composition on `/`-separated paths.
use vstd::prelude::*;

use crate::text::{chars_of, string_from_chars};

verus! {

/// `part` appended to `base` as a path component: an absolute `part` (leading `/`) replaces
/// `base`; an empty `base` yields `part`; otherwise exactly one `/` separates them.
pub open spec fn spec_join(base: Seq<char>, part: Seq<char>) -> Seq<char> {
    if part.len() > 0 && part[0] == '/' {
        part
    } else if base.len() == 0 {
        part
    } else if base.last() == '/' {
        base + part
    } else {
        base + seq!['/'] + part
    }
}

/// Join a path component onto a base path.
pub fn join_path(base: &str, part: &str) -> (joined: String)
    ensures
        joined@ == spec_join(base@, part@),
{
    let b = chars_of(base);
    let p = chars_of(part);
    if p.len() > 0 && p[0] == '/' {
        return string_from_chars(&p);
    }
    if b.len() == 0 {
        return string_from_chars(&p);
    }
    let mut out: Vec<char> = b.clone();
    assert(out@ =~= b@);
    if b[b.len() - 1] != '/' {
        out.push('/');
    }
    let ghost prefix = out@;
    let mut i: usize = 0;
    while i < p.len()
        invariant
            i <= p@.len(),
            out@ == prefix + p@.subrange(0, i as int),
        decreases p@.len() - i,
    {
        out.push(p[i]);
        i = i + 1;
    }
    assert(p@.subrange(0, p@.len() as int) =~= p@);
    assert(out@ =~= spec_join(base@, part@));
    string_from_chars(&out)
}

/// Position of the last `c` in `s`, or -1 when `c` does not occur.
pub open spec fn last_index(s: Seq<char>, c: char) -> int
    decreases s.len(),
{
    if s.len() == 0 {
        -1
    } else if s.last() == c {
        s.len() - 1
    } else {
        last_index(s.drop_last(), c)
    }
}

/// `s` without trailing `/`, keeping a lone leading one.
pub open spec fn strip_trailing_slashes(s: Seq<char>) -> Seq<char>
    decreases s.len(),
{
    if s.len() > 1 && s.last() == '/' { strip_trailing_slashes(s.drop_last()) } else { s }
}

/// Where the last segment of `p` (trailing `/` ignored) starts.
pub open spec fn name_start(p: Seq<char>) -> int {
    last_index(strip_trailing_slashes(p), '/') + 1
}

/// The last `/`-separated segment of `p`, trailing `/` ignored; none when that segment is
/// empty, `.` or `..`.
pub open spec fn file_name(p: Seq<char>) -> Option<Seq<char>> {
    let t = strip_trailing_slashes(p);
    let name = t.subrange(name_start(p), t.len() as int);
    if name.len() == 0 || name == seq!['.'] || name == seq!['.', '.'] { None } else { Some(name) }
}

/// A file name without its extension: the part before the last `.`, unless that part is empty.
pub open spec fn stem_of_name(name: Seq<char>) -> Seq<char> {
    let d = last_index(name, '.');
    if d <= 0 { name } else { name.subrange(0, d) }
}

/// The file name of `p` without its extension.
pub open spec fn file_stem(p: Seq<char>) -> Option<Seq<char>> {
    match file_name(p) {
        Some(name) => Some(stem_of_name(name)),
        None => None,
    }
}

/// `p` with the extension of its file name replaced by `ext` (removed when `ext` is empty);
/// unchanged when `p` has no file name.
pub open spec fn with_extension(p: Seq<char>, ext: Seq<char>) -> Seq<char> {
    match file_name(p) {
        Some(name) => {
            let kept = strip_trailing_slashes(p).subrange(0, name_start(p) + stem_of_name(name).len());
            if ext.len() > 0 { kept + seq!['.'] + ext } else { kept }
        },
        None => p,
    }
}

/// `p` is a single relative segment: not empty, not starting with `/`, and without `/` except
/// trailing ones.
pub open spec fn single_component(p: Seq<char>) -> bool {
    p.len() > 0 && p[0] != '/' && last_index(strip_trailing_slashes(p), '/') == -1
}

/// Position of the last `c` in `v`.
pub fn last_index_of(v: &Vec<char>, c: char) -> (r: Option<usize>)
    ensures
        match r {
            Some(i) => i as int == last_index(v@, c),
            None => last_index(v@, c) == -1,
        },
        last_index(v@, c) < v@.len(),
        last_index(v@, c) >= -1,
{
    let mut i: usize = v.len();
    assert(v@.subrange(0, i as int) =~= v@);
    proof { lemma_last_index_bounds(v@, c); }
    while i > 0
        invariant
            i <= v@.len(),
            last_index(v@, c) == last_index(v@.subrange(0, i as int), c),
            -1 <= last_index(v@.subrange(0, i as int), c) < i,
        decreases i,
    {
        assert(v@.subrange(0, i as int).drop_last() =~= v@.subrange(0, i - 1));
        proof { lemma_last_index_bounds(v@.subrange(0, i - 1), c); }
        if v[i - 1] == c {
            return Some(i - 1);
        }
        i = i - 1;
    }
    None
}

proof fn lemma_last_index_bounds(s: Seq<char>, c: char)
    ensures
        -1 <= last_index(s, c) < s.len(),
        last_index(s, c) >= 0 ==> s[last_index(s, c)] == c,
    decreases s.len(),
{
    if s.len() > 0 {
        lemma_last_index_bounds(s.drop_last(), c);
    }
}

proof fn lemma_strip_prefix(s: Seq<char>)
    ensures
        strip_trailing_slashes(s).len() <= s.len(),
        strip_trailing_slashes(s) =~= s.subrange(0, strip_trailing_slashes(s).len() as int),
    decreases s.len(),
{
    if s.len() > 1 && s.last() == '/' {
        lemma_strip_prefix(s.drop_last());
    }
}

/// `v` without trailing `/`, keeping a lone leading one.
fn strip_slashes(v: &Vec<char>) -> (r: Vec<char>)
    ensures
        r@ == strip_trailing_slashes(v@),
{
    let mut n: usize = v.len();
    assert(v@.subrange(0, n as int) =~= v@);
    while n > 1 && v[n - 1] == '/'
        invariant
            n <= v@.len(),
            strip_trailing_slashes(v@) == strip_trailing_slashes(v@.subrange(0, n as int)),
        decreases n,
    {
        assert(v@.subrange(0, n as int).drop_last() =~= v@.subrange(0, n - 1));
        n = n - 1;
    }
    let mut r: Vec<char> = Vec::new();
    let mut i: usize = 0;
    while i < n
        invariant
            i <= n,
            n <= v@.len(),
            r@ == v@.subrange(0, i as int),
        decreases n - i,
    {
        r.push(v[i]);
        i = i + 1;
    }
    r
}

fn subrange_vec(v: &Vec<char>, from: usize, to: usize) -> (r: Vec<char>)
    requires
        from <= to <= v@.len(),
    ensures
        r@ == v@.subrange(from as int, to as int),
{
    let mut r: Vec<char> = Vec::new();
    let mut i: usize = from;
    while i < to
        invariant
            from <= i <= to,
            to <= v@.len(),
            r@ == v@.subrange(from as int, i as int),
        decreases to - i,
    {
        r.push(v[i]);
        i = i + 1;
    }
    r
}

/// Where the last segment starts and the segment itself, when `p` has a file name.
fn split_name(p: &Vec<char>) -> (r: Option<(Vec<char>, usize)>)
    ensures
        match r {
            Some((name, start)) => file_name(p@) == Some(name@) && start as int == name_start(p@)
                && start + name@.len() == strip_trailing_slashes(p@).len(),
            None => file_name(p@) is None,
        },
{
    let t = strip_slashes(p);
    let tl = t.len();
    let start: usize = match last_index_of(&t, '/') {
        Some(i) => {
            assert(i < tl);
            i + 1
        },
        None => 0,
    };
    let name = subrange_vec(&t, start, t.len());
    if name.len() == 0 || (name.len() == 1 && name[0] == '.') || (name.len() == 2 && name[0] == '.' && name[1] == '.') {
        proof {
            if name@.len() == 1 && name@[0] == '.' { assert(name@ =~= seq!['.']); }
            if name@.len() == 2 && name@[0] == '.' && name@[1] == '.' { assert(name@ =~= seq!['.', '.']); }
        }
        None
    } else {
        assert(name@ != seq!['.']);
        assert(name@ != seq!['.', '.']);
        Some((name, start))
    }
}

/// The file name of `path`.
pub fn path_file_name(path: &str) -> (r: Option<String>)
    ensures
        match r {
            Some(s) => file_name(path@) == Some(s@),
            None => file_name(path@) is None,
        },
{
    let p = chars_of(path);
    match split_name(&p) {
        None => None,
        Some((name, _)) => Some(string_from_chars(&name)),
    }
}

/// The file name of `path` without its extension.
pub fn path_file_stem(path: &str) -> (r: Option<String>)
    ensures
        match r {
            Some(s) => file_stem(path@) == Some(s@),
            None => file_stem(path@) is None,
        },
{
    let p = chars_of(path);
    match split_name(&p) {
        None => None,
        Some((name, _)) => {
            let stem = match last_index_of(&name, '.') {
                Some(d) => if d == 0 { name } else { subrange_vec(&name, 0, d) },
                None => name,
            };
            Some(string_from_chars(&stem))
        },
    }
}

/// `path` with the extension of its file name replaced by `ext`.
pub fn path_with_extension(path: &str, ext: &str) -> (r: String)
    ensures
        r@ == with_extension(path@, ext@),
{
    let p = chars_of(path);
    match split_name(&p) {
        None => string_from_chars(&p),
        Some((name, start)) => {
            let stem_len: usize = match last_index_of(&name, '.') {
                Some(d) => if d == 0 { name.len() } else { d },
                None => name.len(),
            };
            assert(stem_len == stem_of_name(name@).len());
            let t = strip_slashes(&p);
            assert(stem_len <= name@.len());
            assert(start + name@.len() == t@.len());
            assert(t@.len() == t.len());
            let mut kept = subrange_vec(&t, 0, start + stem_len);
            let e = chars_of(ext);
            if e.len() > 0 {
                kept.push('.');
                let ghost prefix = kept@;
                let mut i: usize = 0;
                while i < e.len()
                    invariant
                        i <= e@.len(),
                        kept@ == prefix + e@.subrange(0, i as int),
                    decreases e@.len() - i,
                {
                    kept.push(e[i]);
                    i = i + 1;
                }
                assert(e@.subrange(0, e@.len() as int) =~= e@);
            }
            assert(kept@ =~= with_extension(path@, ext@));
            string_from_chars(&kept)
        },
    }
}

/// Whether `path` is a single relative segment.
pub fn is_single_component(path: &str) -> (r: bool)
    ensures
        r == single_component(path@),
{
    let p = chars_of(path);
    if p.len() == 0 || p[0] == '/' {
        return false;
    }
    let t = strip_slashes(&p);
    last_index_of(&t, '/').is_none()
}

} // verus!
