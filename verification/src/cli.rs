//! Decisions of the command-line runner: log levels, file naming, save and state paths,
//! controller and opcode arguments.
use vstd::prelude::*;

use crate::cartridge::Cartridge;
use crate::cartridge::header::spec_ram_size_bytes;
use crate::input::ControllerState;
use crate::paths::{file_stem, is_single_component, path_file_stem, path_with_extension, single_component, spec_join, join_path, with_extension};
use crate::text::{digit_char, hex_padded, ascii_lower, ascii_upper, chars_of, is_unicode_whitespace, is_whitespace_char, push_char, string_from_chars, to_lower, to_upper, upper_seq};

verus! {

/// Verbosity of the log output.
#[derive(Debug, Clone, Copy, PartialEq, Eq, Structural)]
pub enum LogLevel {
    /// Informational messages and above.
    Info,
    /// Debug messages and above.
    Debug,
    /// Everything.
    Trace,
}

/// The tracing filter used when none is given explicitly.
pub open spec fn spec_default_filter(verbose: u8) -> Seq<char> {
    if verbose == 0 {
        "info,starbyte_core=debug,starbyte_cli=debug"@
    } else if verbose == 1 {
        "debug"@
    } else {
        "trace"@
    }
}

/// The tracing filter used when none is given explicitly.
pub fn default_filter(verbose: u8) -> (f: String)
    ensures
        f@ == spec_default_filter(verbose),
{
    if verbose == 0 {
        "info,starbyte_core=debug,starbyte_cli=debug".to_owned()
    } else if verbose == 1 {
        "debug".to_owned()
    } else {
        "trace".to_owned()
    }
}

/// The most verbose level shown at a verbosity count.
pub fn level_from_verbosity(verbose: u8) -> (l: LogLevel)
    ensures
        l == if verbose == 0 {
            LogLevel::Info
        } else if verbose == 1 {
            LogLevel::Debug
        } else {
            LogLevel::Trace
        },
{
    if verbose == 0 {
        LogLevel::Info
    } else if verbose == 1 {
        LogLevel::Debug
    } else {
        LogLevel::Trace
    }
}

/// Device names Windows reserves, whatever their case.
pub open spec fn reserved_names() -> Set<Seq<char>> {
    set![
        "CON"@, "PRN"@, "AUX"@, "NUL"@, "COM1"@, "COM2"@, "COM3"@, "COM4"@, "COM5"@, "COM6"@, "COM7"@,
        "COM8"@, "COM9"@, "LPT1"@, "LPT2"@, "LPT3"@, "LPT4"@, "LPT5"@, "LPT6"@, "LPT7"@, "LPT8"@, "LPT9"@,
    ]
}

/// Whether `a` and `b` hold the same characters.
fn same_chars(a: &Vec<char>, b: &str) -> (r: bool)
    ensures
        r == (a@ == b@),
{
    let bv = chars_of(b);
    if a.len() != bv.len() {
        return false;
    }
    let mut i: usize = 0;
    while i < a.len()
        invariant
            a@.len() == bv@.len(),
            bv@ == b@,
            i <= a@.len(),
            forall|j: int| 0 <= j < i ==> a@[j] == bv@[j],
        decreases a@.len() - i,
    {
        if a[i] != bv[i] {
            return false;
        }
        i = i + 1;
    }
    assert(a@ =~= bv@);
    true
}

/// `s` with every character ASCII upper-cased.
fn upper_vec(s: &Vec<char>) -> (r: Vec<char>)
    ensures
        r@ == upper_seq(s@),
{
    let mut r: Vec<char> = Vec::new();
    let mut i: usize = 0;
    while i < s.len()
        invariant
            i <= s@.len(),
            r@ == upper_seq(s@.subrange(0, i as int)),
        decreases s@.len() - i,
    {
        r.push(to_upper(s[i]));
        assert(upper_seq(s@.subrange(0, i + 1)) =~= upper_seq(s@.subrange(0, i as int)).push(ascii_upper(s@[i as int])));
        i = i + 1;
    }
    assert(s@.subrange(0, i as int) =~= s@);
    r
}

/// Whether `stem` names a device Windows reserves, ignoring ASCII case.
pub fn is_windows_reserved_stem(stem: &str) -> (r: bool)
    ensures
        r == reserved_names().contains(upper_seq(stem@)),
{
    let u = upper_vec(&chars_of(stem));
    let names: [&str; 22] = [
        "CON", "PRN", "AUX", "NUL", "COM1", "COM2", "COM3", "COM4", "COM5", "COM6", "COM7", "COM8", "COM9",
        "LPT1", "LPT2", "LPT3", "LPT4", "LPT5", "LPT6", "LPT7", "LPT8", "LPT9",
    ];
    let ghost listed = seq![
        "CON"@, "PRN"@, "AUX"@, "NUL"@, "COM1"@, "COM2"@, "COM3"@, "COM4"@, "COM5"@, "COM6"@, "COM7"@,
        "COM8"@, "COM9"@, "LPT1"@, "LPT2"@, "LPT3"@, "LPT4"@, "LPT5"@, "LPT6"@, "LPT7"@, "LPT8"@, "LPT9"@,
    ];
    assert(forall|k: int| 0 <= k < 22 ==> #[trigger] names@[k]@ == listed[k]);
    assert(reserved_names() =~= listed.to_set()) by {
        assert forall|x: Seq<char>| reserved_names().contains(x) <==> listed.contains(x) by {
            if reserved_names().contains(x) {
                if x == "CON"@ { assert(listed[0] == x); }
                if x == "PRN"@ { assert(listed[1] == x); }
                if x == "AUX"@ { assert(listed[2] == x); }
                if x == "NUL"@ { assert(listed[3] == x); }
                if x == "COM1"@ { assert(listed[4] == x); }
                if x == "COM2"@ { assert(listed[5] == x); }
                if x == "COM3"@ { assert(listed[6] == x); }
                if x == "COM4"@ { assert(listed[7] == x); }
                if x == "COM5"@ { assert(listed[8] == x); }
                if x == "COM6"@ { assert(listed[9] == x); }
                if x == "COM7"@ { assert(listed[10] == x); }
                if x == "COM8"@ { assert(listed[11] == x); }
                if x == "COM9"@ { assert(listed[12] == x); }
                if x == "LPT1"@ { assert(listed[13] == x); }
                if x == "LPT2"@ { assert(listed[14] == x); }
                if x == "LPT3"@ { assert(listed[15] == x); }
                if x == "LPT4"@ { assert(listed[16] == x); }
                if x == "LPT5"@ { assert(listed[17] == x); }
                if x == "LPT6"@ { assert(listed[18] == x); }
                if x == "LPT7"@ { assert(listed[19] == x); }
                if x == "LPT8"@ { assert(listed[20] == x); }
                if x == "LPT9"@ { assert(listed[21] == x); }
            }
        }
    }
    let mut k: usize = 0;
    while k < 22
        invariant
            k <= 22,
            u@ == upper_seq(stem@),
            listed.len() == 22,
            reserved_names() == listed.to_set(),
            forall|j: int| 0 <= j < 22 ==> #[trigger] names@[j]@ == listed[j],
            forall|j: int| 0 <= j < k ==> listed[j] != u@,
        decreases 22 - k,
    {
        if same_chars(&u, names[k]) {
            assert(listed.contains(u@)) by { assert(listed[k as int] == u@); }
            return true;
        }
        k = k + 1;
    }
    assert(!listed.contains(u@));
    false
}

/// A character kept in file stems: ASCII letters and digits, `-` and `_`.
pub open spec fn stem_char_kept(c: char) -> bool {
    ('a' <= c && c <= 'z') || ('A' <= c && c <= 'Z') || ('0' <= c && c <= '9') || c == '-' || c == '_'
}

/// A character trimmed from both ends of a file stem.
pub open spec fn stem_trimmed(c: char) -> bool {
    c == '_' || c == '.' || c == ' '
}

/// Every character not kept replaced by `_`.
pub open spec fn stem_chars(s: Seq<char>) -> Seq<char> {
    s.map_values(|c: char| if stem_char_kept(c) { c } else { '_' })
}

/// Leading characters of `s` that `drop` holds.
pub open spec fn leading_count(s: Seq<char>, drop: spec_fn(char) -> bool) -> nat
    decreases s.len(),
{
    if s.len() > 0 && drop(s[0]) { 1 + leading_count(s.drop_first(), drop) } else { 0 }
}

/// Trailing characters of `s` that `drop` holds.
pub open spec fn trailing_count(s: Seq<char>, drop: spec_fn(char) -> bool) -> nat
    decreases s.len(),
{
    if s.len() > 0 && drop(s.last()) { 1 + trailing_count(s.drop_last(), drop) } else { 0 }
}

/// `s` without the characters `drop` holds at either end.
pub open spec fn trim_by(s: Seq<char>, drop: spec_fn(char) -> bool) -> Seq<char> {
    let front = leading_count(s, drop);
    if front == s.len() {
        seq![]
    } else {
        s.subrange(front as int, s.len() - trailing_count(s, drop))
    }
}

/// A file stem safe on common file systems.
pub open spec fn spec_sanitize_file_stem(input: Seq<char>) -> Seq<char> {
    let trimmed = trim_by(stem_chars(input), |c: char| stem_trimmed(c));
    let stem = if trimmed.len() == 0 { "starbyte-save"@ } else { trimmed };
    if reserved_names().contains(upper_seq(stem)) { stem + "_rom"@ } else { stem }
}

pub(crate) proof fn lemma_leading_bound(s: Seq<char>, drop: spec_fn(char) -> bool)
    ensures
        leading_count(s, drop) <= s.len(),
        forall|i: int| 0 <= i < leading_count(s, drop) ==> drop(#[trigger] s[i]),
        leading_count(s, drop) < s.len() ==> !drop(s[leading_count(s, drop) as int]),
    decreases s.len(),
{
    if s.len() > 0 && drop(s[0]) {
        lemma_leading_bound(s.drop_first(), drop);
        assert forall|i: int| 0 <= i < leading_count(s, drop) implies drop(#[trigger] s[i]) by {
            if i > 0 { assert(s[i] == s.drop_first()[i - 1]); }
        }
    }
}

proof fn lemma_trailing_bound(s: Seq<char>, drop: spec_fn(char) -> bool)
    ensures
        trailing_count(s, drop) <= s.len(),
        forall|i: int| s.len() - trailing_count(s, drop) <= i < s.len() ==> drop(#[trigger] s[i]),
        trailing_count(s, drop) < s.len() ==> !drop(s[s.len() - 1 - trailing_count(s, drop)]),
    decreases s.len(),
{
    if s.len() > 0 && drop(s.last()) {
        lemma_trailing_bound(s.drop_last(), drop);
        assert forall|i: int| s.len() - trailing_count(s, drop) <= i < s.len() implies drop(#[trigger] s[i]) by {
            if i < s.len() - 1 {
                assert(s.drop_last()[i] == s[i]);
            }
        }
        if trailing_count(s, drop) < s.len() {
            assert(s.drop_last()[s.len() - 1 - trailing_count(s, drop)] == s[s.len() - 1 - trailing_count(s, drop)]);
        }
    }
}

/// Leading count is the first position where `drop` fails.
pub(crate) proof fn lemma_leading_is_first(s: Seq<char>, drop: spec_fn(char) -> bool, k: nat)
    requires
        k <= s.len(),
        forall|i: int| 0 <= i < k ==> drop(#[trigger] s[i]),
        k < s.len() ==> !drop(s[k as int]),
    ensures
        leading_count(s, drop) == k,
    decreases s.len(),
{
    if k > 0 {
        assert(drop(s[0]));
        assert forall|i: int| 0 <= i < k - 1 implies drop(#[trigger] s.drop_first()[i]) by {
            assert(s.drop_first()[i] == s[i + 1]);
        }
        lemma_leading_is_first(s.drop_first(), drop, (k - 1) as nat);
    }
}

/// Trailing count is the last position where `drop` fails, from the end.
pub(crate) proof fn lemma_trailing_is_last(s: Seq<char>, drop: spec_fn(char) -> bool, k: nat)
    requires
        k <= s.len(),
        forall|i: int| s.len() - k <= i < s.len() ==> drop(#[trigger] s[i]),
        k < s.len() ==> !drop(s[s.len() - 1 - k]),
    ensures
        trailing_count(s, drop) == k,
    decreases s.len(),
{
    if k > 0 {
        assert(drop(s.last()));
        assert forall|i: int| s.drop_last().len() - (k - 1) <= i < s.drop_last().len() implies drop(#[trigger] s.drop_last()[i]) by {
            assert(s.drop_last()[i] == s[i]);
        }
        lemma_trailing_is_last(s.drop_last(), drop, (k - 1) as nat);
    }
}

/// A file stem safe on common file systems: characters other than ASCII letters, digits,
/// `-` and `_` become `_`; `_`, `.` and ` ` are trimmed from both ends; an empty result becomes
/// `starbyte-save`, and a name Windows reserves gets `_rom` appended.
pub fn sanitize_file_stem(input: &str) -> (s: String)
    ensures
        s@ == spec_sanitize_file_stem(input@),
{
    let chars = chars_of(input);
    let mut mapped: Vec<char> = Vec::new();
    let mut i: usize = 0;
    while i < chars.len()
        invariant
            i <= chars@.len(),
            chars@ == input@,
            mapped@ == stem_chars(chars@.subrange(0, i as int)),
        decreases chars@.len() - i,
    {
        let c = chars[i];
        let kept = ('a' <= c && c <= 'z') || ('A' <= c && c <= 'Z') || ('0' <= c && c <= '9') || c == '-' || c == '_';
        mapped.push(if kept { c } else { '_' });
        assert(stem_chars(chars@.subrange(0, i + 1)) =~= stem_chars(chars@.subrange(0, i as int)).push(if kept { c } else { '_' }));
        i = i + 1;
    }
    assert(chars@.subrange(0, i as int) =~= chars@);
    let ghost drop = |c: char| stem_trimmed(c);
    let n = mapped.len();
    let mut front: usize = 0;
    while front < n && (mapped[front] == '_' || mapped[front] == '.' || mapped[front] == ' ')
        invariant
            front <= n,
            n == mapped@.len(),
            drop == |c: char| stem_trimmed(c),
            forall|j: int| 0 <= j < front ==> drop(#[trigger] mapped@[j]),
        decreases n - front,
    {
        front = front + 1;
    }
    proof { lemma_leading_is_first(mapped@, drop, front as nat); }
    let mut trimmed: Vec<char> = Vec::new();
    if front < n {
        let mut back: usize = 0;
        while back < n - front && (mapped[n - 1 - back] == '_' || mapped[n - 1 - back] == '.' || mapped[n - 1 - back] == ' ')
            invariant
                front < n,
                back <= n - front,
                n == mapped@.len(),
                drop == |c: char| stem_trimmed(c),
                forall|j: int| n - back <= j < n ==> drop(#[trigger] mapped@[j]),
            decreases n - front - back,
        {
            back = back + 1;
        }
        proof {
            lemma_leading_bound(mapped@, drop);
            if back == n - front {
                assert(drop(mapped@[front as int]));
            }
            lemma_trailing_is_last(mapped@, drop, back as nat);
        }
        let mut k: usize = front;
        while k < n - back
            invariant
                front <= k <= n - back,
                n == mapped@.len(),
                back <= n,
                trimmed@ == mapped@.subrange(front as int, k as int),
            decreases n - back - k,
        {
            trimmed.push(mapped[k]);
            k = k + 1;
        }
    }
    assert(trimmed@ =~= trim_by(stem_chars(input@), drop));
    let stem = if trimmed.len() == 0 { "starbyte-save".to_owned() } else { string_from_chars(&trimmed) };
    let mut stem = stem;
    if is_windows_reserved_stem(stem.as_str()) {
        stem.append("_rom");
    }
    stem
}

/// Where battery-backed save RAM of `cartridge` is kept: `None` without save RAM; otherwise
/// `<stem>.srm` in `save_dir`, or, without one, the ROM's own path with the extension `srm`.
/// The stem is the ROM file's stem, or the sanitized header title for a ROM without a path.
pub fn resolve_save_ram_path(cartridge: &Cartridge, save_dir: Option<&str>) -> (r: Result<Option<String>, PathError>)
    ensures
        spec_ram_size_bytes(cartridge.header_view()) == 0 ==> r == Ok::<Option<String>, PathError>(None),
        spec_ram_size_bytes(cartridge.header_view()) != 0 ==> match save_dir {
            Some(dir) => r matches Ok(Some(p)) && p@ == spec_join(dir@, rom_stem(*cartridge) + ".srm"@),
            None => match cartridge.source_view() {
                Some(src) => r matches Ok(Some(p)) && p@ == with_extension(src@, "srm"@),
                None => r == Err::<Option<String>, PathError>(PathError::NoSource),
            },
        },
{
    let save_len = cartridge.header().ram_size_bytes();
    if save_len == 0 {
        return Ok(None);
    }
    match save_dir {
        Some(dir) => {
            let mut name = stem_of(cartridge);
            name.append(".srm");
            Ok(Some(join_path(dir, name.as_str())))
        },
        None => match cartridge.source() {
            Some(src) => Ok(Some(path_with_extension(src.as_str(), "srm"))),
            None => Err(PathError::NoSource),
        },
    }
}

/// Why a path cannot be resolved.
#[derive(Debug, Clone, Copy, PartialEq, Eq, Structural)]
pub enum PathError {
    /// The ROM was loaded without a file system path to derive one from.
    NoSource,
}

impl PathError {
    /// The human-readable message.
    pub fn message(&self) -> (m: String)
        ensures
            m@ == "cannot resolve save path for ROM loaded without a filesystem source"@,
    {
        "cannot resolve save path for ROM loaded without a filesystem source".to_owned()
    }
}

/// The stem files of a cartridge are named by: the ROM file's stem, or the sanitized title.
pub open spec fn rom_stem(cartridge: Cartridge) -> Seq<char> {
    match cartridge.source_view() {
        Some(src) => match file_stem(src@) {
            Some(stem) => stem,
            None => spec_sanitize_file_stem(cartridge.header_view().title@),
        },
        None => spec_sanitize_file_stem(cartridge.header_view().title@),
    }
}

fn stem_of(cartridge: &Cartridge) -> (s: String)
    ensures
        s@ == rom_stem(*cartridge),
{
    let from_source = match cartridge.source() {
        Some(src) => path_file_stem(src.as_str()),
        None => None,
    };
    match from_source {
        Some(stem) => stem,
        None => sanitize_file_stem(cartridge.header().title.as_str()),
    }
}

/// Where a save state goes: an explicit single-segment name inside `state_dir`, any other
/// explicit path as given, `<stem>.state.json` in `state_dir` without an explicit path, and
/// nowhere without either.
pub fn resolve_state_path(explicit: Option<&str>, state_dir: Option<&str>, cartridge: &Cartridge) -> (r: Result<Option<String>, PathError>)
    ensures
        r matches Ok(p) && match (explicit, state_dir) {
            (Some(path), Some(dir)) => p matches Some(q) && q@ == if single_component(path@) {
                spec_join(dir@, path@)
            } else {
                path@
            },
            (Some(path), None) => p matches Some(q) && q@ == path@,
            (None, Some(dir)) => p matches Some(q) && q@ == spec_join(dir@, rom_stem(*cartridge) + ".state.json"@),
            (None, None) => p is None,
        },
{
    match (explicit, state_dir) {
        (Some(path), Some(dir)) => {
            if is_single_component(path) {
                Ok(Some(join_path(dir, path)))
            } else {
                Ok(Some(path.to_owned()))
            }
        },
        (Some(path), None) => Ok(Some(path.to_owned())),
        (None, Some(dir)) => {
            let mut name = stem_of(cartridge);
            name.append(".state.json");
            Ok(Some(join_path(dir, name.as_str())))
        },
        (None, None) => Ok(None),
    }
}

/// The comma-separated parts of `s`.
pub open spec fn split_commas(s: Seq<char>) -> Seq<Seq<char>>
    decreases s.len(),
{
    if s.len() == 0 {
        seq![seq![]]
    } else {
        let parts = split_commas(s.drop_last());
        if s.last() == ',' {
            parts.push(seq![])
        } else {
            parts.update(parts.len() - 1, parts.last().push(s.last()))
        }
    }
}

/// `s` without white space at either end.
pub open spec fn trim_ws(s: Seq<char>) -> Seq<char> {
    trim_by(s, |c: char| is_unicode_whitespace(c))
}

/// `s` with every character ASCII lower-cased.
pub open spec fn lower_seq(s: Seq<char>) -> Seq<char> {
    s.map_values(|c: char| ascii_lower(c))
}

/// `state` with the button named `name` held, if there is such a button.
pub open spec fn press(state: ControllerState, name: Seq<char>) -> Option<ControllerState> {
    if name == "b"@ {
        Some(ControllerState { b: true, ..state })
    } else if name == "y"@ {
        Some(ControllerState { y: true, ..state })
    } else if name == "select"@ {
        Some(ControllerState { select: true, ..state })
    } else if name == "start"@ {
        Some(ControllerState { start: true, ..state })
    } else if name == "up"@ {
        Some(ControllerState { up: true, ..state })
    } else if name == "down"@ {
        Some(ControllerState { down: true, ..state })
    } else if name == "left"@ {
        Some(ControllerState { left: true, ..state })
    } else if name == "right"@ {
        Some(ControllerState { right: true, ..state })
    } else if name == "a"@ {
        Some(ControllerState { a: true, ..state })
    } else if name == "x"@ {
        Some(ControllerState { x: true, ..state })
    } else if name == "l"@ {
        Some(ControllerState { l: true, ..state })
    } else if name == "r"@ {
        Some(ControllerState { r: true, ..state })
    } else {
        None
    }
}

/// The state with no button held.
pub open spec fn released() -> ControllerState {
    ControllerState {
        b: false, y: false, select: false, start: false, up: false, down: false,
        left: false, right: false, a: false, x: false, l: false, r: false,
    }
}

/// Pressing the buttons of `parts` in order, skipping empty parts after trimming; the first
/// unknown name (lower-cased) is the error.
pub open spec fn press_all(state: ControllerState, parts: Seq<Seq<char>>) -> Result<ControllerState, Seq<char>>
    decreases parts.len(),
{
    if parts.len() == 0 {
        Ok(state)
    } else {
        let name = lower_seq(trim_ws(parts[0]));
        if name.len() == 0 {
            press_all(state, parts.drop_first())
        } else {
            match press(state, name) {
                Some(next) => press_all(next, parts.drop_first()),
                None => Err(name),
            }
        }
    }
}

/// A controller argument naming an unknown button.
#[derive(Debug, Clone, PartialEq, Eq)]
pub struct UnknownButton {
    /// The unknown name, lower-cased.
    pub name: String,
}

impl UnknownButton {
    /// The human-readable message.
    pub fn message(&self) -> (m: String)
        ensures
            m@ == "unknown controller button `"@ + self.name@ + "`"@,
    {
        let mut m = "unknown controller button `".to_owned();
        m.append(self.name.as_str());
        m.append("`");
        m
    }
}

pub(crate) fn trim_ws_vec(s: &Vec<char>) -> (r: Vec<char>)
    ensures
        r@ == trim_ws(s@),
{
    let ghost drop = |c: char| is_unicode_whitespace(c);
    let n = s.len();
    let mut front: usize = 0;
    while front < n && is_whitespace_char(s[front])
        invariant
            front <= n,
            n == s@.len(),
            drop == |c: char| is_unicode_whitespace(c),
            forall|j: int| 0 <= j < front ==> drop(#[trigger] s@[j]),
        decreases n - front,
    {
        front = front + 1;
    }
    proof { lemma_leading_is_first(s@, drop, front as nat); }
    let mut r: Vec<char> = Vec::new();
    if front < n {
        let mut back: usize = 0;
        while back < n - front && is_whitespace_char(s[n - 1 - back])
            invariant
                front < n,
                back <= n - front,
                n == s@.len(),
                drop == |c: char| is_unicode_whitespace(c),
                forall|j: int| n - back <= j < n ==> drop(#[trigger] s@[j]),
            decreases n - front - back,
        {
            back = back + 1;
        }
        proof {
            lemma_leading_bound(s@, drop);
            if back == n - front {
                assert(drop(s@[front as int]));
            }
            lemma_trailing_is_last(s@, drop, back as nat);
        }
        let mut k: usize = front;
        while k < n - back
            invariant
                front <= k <= n - back,
                n == s@.len(),
                back <= n,
                r@ == s@.subrange(front as int, k as int),
            decreases n - back - k,
        {
            r.push(s[k]);
            k = k + 1;
        }
    }
    assert(r@ =~= trim_ws(s@));
    r
}

/// The trimmed text is a run of the original text.
pub proof fn lemma_trim_ws_within(s: Seq<char>)
    ensures
        trim_ws(s).len() + leading_count(s, |c: char| is_unicode_whitespace(c)) <= s.len(),
        forall|i: int| 0 <= i < trim_ws(s).len()
            ==> #[trigger] trim_ws(s)[i] == s[i + leading_count(s, |c: char| is_unicode_whitespace(c))],
{
    let drop = |c: char| is_unicode_whitespace(c);
    lemma_leading_bound(s, drop);
    lemma_trailing_bound(s, drop);
    let front = leading_count(s, drop);
    if front < s.len() {
        assert(front < s.len() - trailing_count(s, drop));
    }
}

/// The trimmed text starts and ends with characters other than white space.
pub proof fn lemma_trim_ws_ends(s: Seq<char>)
    ensures
        trim_ws(s).len() > 0 ==> !is_unicode_whitespace(trim_ws(s)[0]),
        trim_ws(s).len() > 0 ==> !is_unicode_whitespace(trim_ws(s).last()),
{
    let drop = |c: char| is_unicode_whitespace(c);
    lemma_leading_bound(s, drop);
    lemma_trailing_bound(s, drop);
    lemma_trim_ws_within(s);
    let front = leading_count(s, drop);
    if front < s.len() {
        assert(front < s.len() - trailing_count(s, drop));
        assert(trim_ws(s)[0] == s[front as int]);
        assert(trim_ws(s).last() == s[s.len() - 1 - trailing_count(s, drop)]);
    }
}

fn lower_vec(s: &Vec<char>) -> (r: Vec<char>)
    ensures
        r@ == lower_seq(s@),
{
    let mut r: Vec<char> = Vec::new();
    let mut i: usize = 0;
    while i < s.len()
        invariant
            i <= s@.len(),
            r@ == lower_seq(s@.subrange(0, i as int)),
        decreases s@.len() - i,
    {
        r.push(to_lower(s[i]));
        assert(lower_seq(s@.subrange(0, i + 1)) =~= lower_seq(s@.subrange(0, i as int)).push(ascii_lower(s@[i as int])));
        i = i + 1;
    }
    assert(s@.subrange(0, i as int) =~= s@);
    r
}

fn press_button(state: ControllerState, name: &Vec<char>) -> (r: Option<ControllerState>)
    ensures
        r == press(state, name@),
{
    if same_chars(name, "b") {
        Some(ControllerState { b: true, ..state })
    } else if same_chars(name, "y") {
        Some(ControllerState { y: true, ..state })
    } else if same_chars(name, "select") {
        Some(ControllerState { select: true, ..state })
    } else if same_chars(name, "start") {
        Some(ControllerState { start: true, ..state })
    } else if same_chars(name, "up") {
        Some(ControllerState { up: true, ..state })
    } else if same_chars(name, "down") {
        Some(ControllerState { down: true, ..state })
    } else if same_chars(name, "left") {
        Some(ControllerState { left: true, ..state })
    } else if same_chars(name, "right") {
        Some(ControllerState { right: true, ..state })
    } else if same_chars(name, "a") {
        Some(ControllerState { a: true, ..state })
    } else if same_chars(name, "x") {
        Some(ControllerState { x: true, ..state })
    } else if same_chars(name, "l") {
        Some(ControllerState { l: true, ..state })
    } else if same_chars(name, "r") {
        Some(ControllerState { r: true, ..state })
    } else {
        None
    }
}

/// Splitting a prefix one character further.
proof fn lemma_split_step(s: Seq<char>, i: int)
    requires
        0 <= i < s.len(),
    ensures
        split_commas(s.subrange(0, i + 1)) == if s[i] == ',' {
            split_commas(s.subrange(0, i)).push(seq![])
        } else {
            let parts = split_commas(s.subrange(0, i));
            parts.update(parts.len() - 1, parts.last().push(s[i]))
        },
{
    assert(s.subrange(0, i + 1).drop_last() =~= s.subrange(0, i));
}

proof fn lemma_split_nonempty(s: Seq<char>)
    ensures
        split_commas(s).len() >= 1,
    decreases s.len(),
{
    if s.len() > 0 {
        lemma_split_nonempty(s.drop_last());
    }
}

/// Pressing the buttons of one more part.
proof fn lemma_press_all_push(state: ControllerState, parts: Seq<Seq<char>>, part: Seq<char>)
    requires
        press_all(state, parts) is Ok,
    ensures
        press_all(state, parts.push(part)) == ({
            let name = lower_seq(trim_ws(part));
            let mid = press_all(state, parts)->Ok_0;
            if name.len() == 0 {
                Ok(mid)
            } else {
                match press(mid, name) {
                    Some(next) => Ok(next),
                    None => Err(name),
                }
            }
        }),
    decreases parts.len(),
{
    let whole = parts.push(part);
    if parts.len() > 0 {
        assert(whole.drop_first() =~= parts.drop_first().push(part));
        assert(whole[0] == parts[0]);
        let name0 = lower_seq(trim_ws(parts[0]));
        if name0.len() == 0 {
            assert(press_all(state, parts) == press_all(state, parts.drop_first()));
            assert(press_all(state, whole) == press_all(state, whole.drop_first()));
            lemma_press_all_push(state, parts.drop_first(), part);
        } else {
            let next = press(state, name0)->Some_0;
            assert(press_all(state, parts) == press_all(next, parts.drop_first()));
            assert(press_all(state, whole) == press_all(next, whole.drop_first()));
            lemma_press_all_push(next, parts.drop_first(), part);
        }
    } else {
        assert(whole.drop_first() =~= Seq::<Seq<char>>::empty());
        assert(whole[0] == part);
        assert(press_all(state, parts) == Ok::<ControllerState, Seq<char>>(state));
        let name = lower_seq(trim_ws(part));
        if name.len() > 0 {
            match press(state, name) {
                Some(next) => {
                    assert(press_all(next, whole.drop_first()) == Ok::<ControllerState, Seq<char>>(next));
                },
                None => {},
            }
        } else {
            assert(press_all(state, whole.drop_first()) == Ok::<ControllerState, Seq<char>>(state));
        }
    }
}

/// A failed press stays failed.
proof fn lemma_press_all_err(state: ControllerState, parts: Seq<Seq<char>>, more: Seq<Seq<char>>)
    requires
        press_all(state, parts) is Err,
    ensures
        press_all(state, parts + more) == press_all(state, parts),
    decreases parts.len(),
{
    if parts.len() > 0 {
        assert((parts + more).drop_first() =~= parts.drop_first() + more);
        let name0 = lower_seq(trim_ws(parts[0]));
        if name0.len() == 0 {
            lemma_press_all_err(state, parts.drop_first(), more);
        } else {
            match press(state, name0) {
                Some(next) => lemma_press_all_err(next, parts.drop_first(), more),
                None => {},
            }
        }
    }
}

/// Parse a comma-separated list of held controller-1 buttons, as in `b,start,up`; names are
/// trimmed and compared ignoring ASCII case, and empty entries are skipped.
pub fn parse_controller_state(input: &str) -> (r: Result<ControllerState, UnknownButton>)
    ensures
        match (r, press_all(released(), split_commas(input@))) {
            (Ok(s), Ok(t)) => s == t,
            (Err(e), Err(n)) => e.name@ == n,
            _ => false,
        },
{
    let chars = chars_of(input);
    let mut state = ControllerState {
        b: false, y: false, select: false, start: false, up: false, down: false,
        left: false, right: false, a: false, x: false, l: false, r: false,
    };
    let ghost mut done: Seq<Seq<char>> = seq![];
    let mut current: Vec<char> = Vec::new();
    let mut i: usize = 0;
    assert(chars@.subrange(0, 0) =~= Seq::<char>::empty());
    while i < chars.len()
        invariant
            i <= chars@.len(),
            chars@ == input@,
            done.push(current@) == split_commas(chars@.subrange(0, i as int)),
            press_all(released(), done) == Ok::<ControllerState, Seq<char>>(state),
        decreases chars@.len() - i,
    {
        proof {
            lemma_split_step(chars@, i as int);
            lemma_split_nonempty(chars@.subrange(0, i as int));
        }
        if chars[i] == ',' {
            let name = lower_vec(&trim_ws_vec(&current));
            proof { lemma_press_all_push(released(), done, current@); }
            if name.len() > 0 {
                match press_button(state, &name) {
                    Some(next) => {
                        state = next;
                    },
                    None => {
                        proof {
                            let parts = split_commas(input@);
                            let pre = split_commas(chars@.subrange(0, i + 1));
                            assert(pre =~= done.push(current@).push(seq![]));
                            lemma_split_prefix(chars@, i + 1);
                            assert(parts.subrange(0, done.len() + 1int) =~= done.push(current@));
                            assert(done.push(current@) + parts.subrange(done.len() + 1int, parts.len() as int) =~= parts);
                            lemma_press_all_err(released(), done.push(current@), parts.subrange(done.len() + 1int, parts.len() as int));
                        }
                        return Err(UnknownButton { name: string_from_chars(&name) });
                    },
                }
            }
            proof {
                assert(split_commas(chars@.subrange(0, i + 1)) =~= done.push(current@).push(seq![]));
                done = done.push(current@);
            }
            current = Vec::new();
        } else {
            proof {
                assert(split_commas(chars@.subrange(0, i + 1)) =~= done.push(current@.push(chars@[i as int])));
            }
            current.push(chars[i]);
        }
        i = i + 1;
    }
    assert(chars@.subrange(0, i as int) =~= chars@);
    let name = lower_vec(&trim_ws_vec(&current));
    proof { lemma_press_all_push(released(), done, current@); }
    if name.len() > 0 {
        match press_button(state, &name) {
            Some(next) => {
                state = next;
            },
            None => {
                return Err(UnknownButton { name: string_from_chars(&name) });
            },
        }
    }
    Ok(state)
}

/// The parts of a longer text start with the parts of its prefix, all but the last complete.
proof fn lemma_split_prefix(s: Seq<char>, i: int)
    requires
        0 <= i <= s.len(),
        i > 0 && s[i - 1] == ',',
    ensures
        split_commas(s).len() >= split_commas(s.subrange(0, i)).len(),
        split_commas(s).subrange(0, split_commas(s.subrange(0, i)).len() - 1)
            == split_commas(s.subrange(0, i)).drop_last(),
    decreases s.len() - i,
{
    lemma_split_nonempty(s.subrange(0, i));
    if i == s.len() {
        assert(s.subrange(0, i) =~= s);
    } else {
        lemma_split_prefix_step(s, i, s.len() as int);
        assert(s.subrange(0, s.len() as int) =~= s);
    }
}

/// Extending a prefix that ends in a comma keeps its complete parts.
proof fn lemma_split_prefix_step(s: Seq<char>, i: int, j: int)
    requires
        0 < i <= j <= s.len(),
        s[i - 1] == ',',
    ensures
        split_commas(s.subrange(0, j)).len() >= split_commas(s.subrange(0, i)).len(),
        split_commas(s.subrange(0, j)).subrange(0, split_commas(s.subrange(0, i)).len() - 1)
            == split_commas(s.subrange(0, i)).drop_last(),
    decreases j - i,
{
    lemma_split_nonempty(s.subrange(0, i));
    if j > i {
        lemma_split_prefix_step(s, i, j - 1);
        lemma_split_step(s, j - 1);
        lemma_split_nonempty(s.subrange(0, j - 1));
        let a = split_commas(s.subrange(0, i));
        let b = split_commas(s.subrange(0, j - 1));
        let c = split_commas(s.subrange(0, j));
        assert(c.subrange(0, a.len() - 1) =~= b.subrange(0, a.len() - 1));
    }
}

/// The value of a hexadecimal digit, if `c` is one.
pub open spec fn hex_value(c: char) -> Option<nat> {
    if '0' <= c && c <= '9' {
        Some((c as nat - 48) as nat)
    } else if 'a' <= c && c <= 'f' {
        Some((c as nat - 87) as nat)
    } else if 'A' <= c && c <= 'F' {
        Some((c as nat - 55) as nat)
    } else {
        None
    }
}

/// The value of a string of hexadecimal digits, if all of them are.
pub open spec fn hex_number(s: Seq<char>) -> Option<nat>
    decreases s.len(),
{
    if s.len() == 0 {
        Some(0)
    } else {
        match (hex_number(s.drop_last()), hex_value(s.last())) {
            (Some(high), Some(low)) => Some(high * 16 + low),
            _ => None,
        }
    }
}

/// `input` without a leading `0x` or `0X`.
pub open spec fn strip_hex_prefix(input: Seq<char>) -> Seq<char> {
    if input.len() >= 2 && input[0] == '0' && (input[1] == 'x' || input[1] == 'X') {
        input.subrange(2, input.len() as int)
    } else {
        input
    }
}

/// The opcode a command-line argument names: hexadecimal digits after an optional `0x` or `0X`,
/// with an optional `+` sign, worth at most `0xFF`.
pub open spec fn spec_parse_hex_opcode(input: Seq<char>) -> Option<u8> {
    let body = strip_hex_prefix(input);
    let digits = if body.len() > 0 && body[0] == '+' { body.drop_first() } else { body };
    if digits.len() == 0 {
        None
    } else {
        match hex_number(digits) {
            Some(v) if v <= 255 => Some(v as u8),
            _ => None,
        }
    }
}

fn hex_digit(c: char) -> (r: Option<u64>)
    ensures
        match (r, hex_value(c)) {
            (Some(v), Some(w)) => v == w && v < 16,
            (None, None) => true,
            _ => false,
        },
{
    if '0' <= c && c <= '9' {
        Some((c as u32 - 48) as u64)
    } else if 'a' <= c && c <= 'f' {
        Some((c as u32 - 87) as u64)
    } else if 'A' <= c && c <= 'F' {
        Some((c as u32 - 55) as u64)
    } else {
        None
    }
}

/// Once a number exceeds a bound it cannot come back under it by appending digits.
proof fn lemma_hex_number_grows(s: Seq<char>, i: int)
    requires
        0 <= i <= s.len(),
        hex_number(s) is Some,
    ensures
        hex_number(s.subrange(0, i)) is Some,
        hex_number(s.subrange(0, i))->Some_0 <= hex_number(s)->Some_0,
    decreases s.len() - i,
{
    if i == s.len() {
        assert(s.subrange(0, i) =~= s);
    } else {
        assert(s.drop_last().subrange(0, i) =~= s.subrange(0, i));
        assert(hex_number(s.drop_last()) is Some);
        lemma_hex_number_grows(s.drop_last(), i);
    }
}

/// An opcode written as two upper-case hexadecimal digits parses back to itself.
pub proof fn lemma_hex_opcode_roundtrip(v: u8)
    ensures
        spec_parse_hex_opcode(hex_padded(v as nat, 2)) == Some(v),
{
    let high = (v / 16) as nat;
    let low = (v % 16) as nat;
    let text = hex_padded(v as nat, 2);
    assert(hex_padded(high, 1) == seq![digit_char(high)]);
    assert(text =~= seq![digit_char(high), digit_char(low)]);
    assert(hex_value(digit_char(high)) == Some(high));
    assert(hex_value(digit_char(low)) == Some(low));
    assert(strip_hex_prefix(text) == text);
    assert(text.drop_last() =~= seq![digit_char(high)]);
    assert(seq![digit_char(high)].drop_last() =~= Seq::<char>::empty());
    assert(hex_number(Seq::<char>::empty()) == Some(0nat));
    assert(seq![digit_char(high)].last() == digit_char(high));
    assert(hex_number(seq![digit_char(high)]) == Some(high));
    assert(hex_number(text) == Some(high * 16 + low));
}

/// A malformed opcode argument.
#[derive(Debug, Clone, PartialEq, Eq)]
pub struct InvalidOpcode {
    /// The argument as given.
    pub input: String,
}

impl InvalidOpcode {
    /// The human-readable message.
    pub fn message(&self) -> (m: String)
        ensures
            m@ == "invalid opcode `"@ + self.input@ + "`; expected hex such as 00 or 0xA9"@,
    {
        let mut m = "invalid opcode `".to_owned();
        m.append(self.input.as_str());
        m.append("`; expected hex such as 00 or 0xA9");
        m
    }
}

/// Parse a hexadecimal opcode argument such as `a9`, `0xA9` or `0XA9`.
pub fn parse_hex_opcode(input: &str) -> (r: Result<u8, InvalidOpcode>)
    ensures
        match (r, spec_parse_hex_opcode(input@)) {
            (Ok(v), Some(w)) => v == w,
            (Err(e), None) => e.input@ == input@,
            _ => false,
        },
{
    let chars = chars_of(input);
    let mut start: usize = 0;
    if chars.len() >= 2 && chars[0] == '0' && (chars[1] == 'x' || chars[1] == 'X') {
        start = 2;
    }
    let ghost body = strip_hex_prefix(input@);
    assert(body =~= chars@.subrange(start as int, chars@.len() as int));
    if start < chars.len() && chars[start] == '+' {
        start = start + 1;
    }
    let ghost digits = chars@.subrange(start as int, chars@.len() as int);
    assert(digits =~= (if body.len() > 0 && body[0] == '+' { body.drop_first() } else { body }));
    if start >= chars.len() {
        assert(digits.len() == 0);
        return Err(InvalidOpcode { input: input.to_owned() });
    }
    let mut value: u64 = 0;
    let mut i: usize = start;
    assert(digits.subrange(0, 0) =~= Seq::<char>::empty());
    while i < chars.len()
        invariant
            start <= i <= chars@.len(),
            start < chars@.len(),
            chars@ == input@,
            digits == chars@.subrange(start as int, chars@.len() as int),
            digits == (if strip_hex_prefix(input@).len() > 0 && strip_hex_prefix(input@)[0] == '+' {
                strip_hex_prefix(input@).drop_first()
            } else {
                strip_hex_prefix(input@)
            }),
            hex_number(digits.subrange(0, i - start)) == Some(value as nat),
            value <= 255,
        decreases chars@.len() - i,
    {
        assert(digits.subrange(0, i + 1 - start).drop_last() =~= digits.subrange(0, i - start));
        assert(digits.subrange(0, i + 1 - start).last() == chars@[i as int]);
        match hex_digit(chars[i]) {
            None => {
                proof {
                    assert(hex_number(digits.subrange(0, i + 1 - start)) is None);
                    if hex_number(digits) is Some {
                        lemma_hex_number_grows(digits, i + 1 - start);
                    }
                }
                return Err(InvalidOpcode { input: input.to_owned() });
            },
            Some(d) => {
                let next = value * 16 + d;
                if next > 255 {
                    proof {
                        if hex_number(digits) is Some {
                            lemma_hex_number_grows(digits, i + 1 - start);
                        }
                    }
                    return Err(InvalidOpcode { input: input.to_owned() });
                }
                value = next;
            },
        }
        i = i + 1;
    }
    assert(digits.subrange(0, i - start) =~= digits);
    Ok(value as u8)
}

} // verus!
