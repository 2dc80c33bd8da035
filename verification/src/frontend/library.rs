//! Game library records, title normalization, stable game ids and entry selection.
use vstd::prelude::*;

use crate::cli::{lower_seq, trim_ws, trim_ws_vec};
use crate::coprocessor::spec_detect;
use crate::error::{Error, Result};
use crate::cartridge::{Cartridge, Mapper, Region};
use crate::manifest::{AssetConfig, CheatSettings, LibraryViewMode};
use crate::paths::{file_name, join_path, last_index, spec_join};
use crate::text::{
    ascii_lower, chars_of, contains_chars, contains_seq, lower_digit_char, lower_hex, push_char, string_from_chars, text_equal,
    to_lower,
};

verus! {

/// Stable library identifier derived from a normalized game title.
pub type GameId = String;

/// Local ROM information discovered during library scans.
#[derive(Debug, PartialEq, Eq)]
pub struct LocalRomInfo {
    /// Stable game identifier derived from normalized title.
    pub game_id: GameId,
    /// Human-facing title from the ROM header.
    pub title: String,
    /// Normalized title used for merges and lookups.
    pub normalized_title: String,
    /// On-disk ROM path.
    pub rom_path: String,
    /// Mapper name reported by the cartridge header.
    pub mapper: String,
    /// Coprocessor family if detected.
    pub coprocessor: Option<String>,
    /// Cartridge region.
    pub region: String,
    /// File size in bytes.
    pub file_size_bytes: u64,
}

/// Remote metadata record cached for one game.
#[derive(Debug, PartialEq, Eq)]
pub struct GameMetadata {
    /// Stable game identifier derived from normalized title.
    pub game_id: GameId,
    /// Human-facing title from the provider.
    pub title: String,
    /// Normalized title used for merges and lookups.
    pub normalized_title: String,
    /// Provider/source label.
    pub source: String,
    /// Remote cover-art URL if one is known.
    pub cover_url: Option<String>,
    /// Whether the provider exposes cheat files for this title.
    pub has_cheat_files: bool,
    /// Provider cache timestamp.
    pub fetched_at_unix: u64,
}

/// Cached cover-art description for one game.
#[derive(Debug, Clone, PartialEq, Eq)]
pub struct CoverAsset {
    /// Stable game identifier derived from normalized title.
    pub game_id: GameId,
    /// Local cached image path.
    pub cache_path: String,
    /// Remote cover-art source URL.
    pub source_url: String,
    /// Download timestamp.
    pub fetched_at_unix: u64,
}

/// One cheat entry associated with a game.
#[derive(Debug, Clone, PartialEq, Eq)]
pub struct CheatEntry {
    /// Stable cheat identifier.
    pub id: String,
    /// Stable game identifier derived from normalized title.
    pub game_id: GameId,
    /// Human-facing cheat name.
    pub name: String,
    /// Cheat code payload.
    pub code: String,
    /// Provider/source label.
    pub source: String,
    /// Cheat type or family label.
    pub kind: String,
    /// Whether this cheat is enabled in local user settings.
    pub enabled: bool,
}

/// Installed/missing state for one library entry.
#[derive(Debug, Clone, Copy, PartialEq, Eq, Structural)]
pub enum InstalledStatus {
    /// A local ROM exists for the entry.
    Installed,
    /// The entry only exists via cached metadata.
    Missing,
}

/// Fully merged library entry exposed to CLI and GUI shells.
#[derive(Debug, Clone, PartialEq, Eq)]
pub struct LibraryEntry {
    /// Stable game identifier derived from normalized title.
    pub game_id: GameId,
    /// Best display title available for the game.
    pub display_title: String,
    /// Installed/missing state.
    pub installed_status: InstalledStatus,
    /// Local ROM information if present.
    pub local: Option<LocalRomInfo>,
    /// Cached remote metadata if present.
    pub metadata: Option<GameMetadata>,
    /// Cached cover-art description if present.
    pub cover: Option<CoverAsset>,
    /// Cached cheats if present.
    pub cheats: Vec<CheatEntry>,
}

/// Library filtering controls shared by CLI and GUI surfaces.
#[derive(Debug, Clone, PartialEq, Eq)]
pub struct LibraryFilter {
    /// Free-text title query.
    pub query: String,
    /// Whether only installed entries should be shown.
    pub installed_only: bool,
    /// Active presentation mode.
    pub view_mode: LibraryViewMode,
}

impl Default for LibraryFilter {
    fn default() -> (f: Self)
        ensures
            f.query@.len() == 0,
            !f.installed_only,
            f.view_mode == LibraryViewMode::Grid,
    {
        LibraryFilter { query: String::new(), installed_only: false, view_mode: LibraryViewMode::Grid }
    }
}

/// Read-only library snapshot exported to CLI and GUI shells.
#[derive(Debug, Clone, PartialEq, Eq)]
pub struct LibrarySnapshot {
    /// Entries matching the current filter.
    pub entries: Vec<LibraryEntry>,
    /// Active filter used to produce this snapshot.
    pub filter: LibraryFilter,
    /// Total unfiltered library size.
    pub total_count: usize,
    /// Number of installed entries in the merged library.
    pub installed_count: usize,
    /// Number of metadata-only entries in the merged library.
    pub missing_count: usize,
}

/// Target selection for refresh-style library commands.
#[derive(Debug, Clone, PartialEq, Eq)]
pub struct LibraryTarget {
    /// Restrict work to installed entries.
    pub installed_only: bool,
    /// Restrict work to one stable game id.
    pub game_id: Option<GameId>,
    /// Restrict work to one title query.
    pub title: Option<String>,
    /// Restrict work to one ROM path.
    pub rom_path: Option<String>,
}

impl Default for LibraryTarget {
    fn default() -> (t: Self)
        ensures
            !t.installed_only,
            t.game_id is None,
            t.title is None,
            t.rom_path is None,
    {
        LibraryTarget { installed_only: false, game_id: None, title: None, rom_path: None }
    }
}

/// Summary returned by cache refresh actions.
#[derive(Debug, Clone, Copy, PartialEq, Eq, Structural)]
pub struct RefreshSummary {
    /// Number of metadata records written.
    pub metadata_records: usize,
    /// Number of cover files written.
    pub covers_written: usize,
    /// Number of cheat records written.
    pub cheat_records: usize,
}

/// Future hook for ROM-download providers; downloading is unsupported in this version.
pub trait RomDownloadProvider {
    /// Attempt to download a ROM for the provided game.
    fn download_rom(&self, entry: &LibraryEntry) -> (r: Result<String>)
        default_ensures
            r matches Err(Error::Unimplemented(m))
                && m@ == "ROM downloading is intentionally unsupported in this version"@,
    {
        Err(Error::Unimplemented("ROM downloading is intentionally unsupported in this version".to_owned()))
    }
}

/// An ASCII letter or digit.
pub open spec fn is_ascii_alnum(c: char) -> bool {
    ('a' <= c && c <= 'z') || ('A' <= c && c <= 'Z') || ('0' <= c && c <= '9')
}

/// Letters and digits lower-cased, every run of other characters collapsed into one space,
/// with whether the output currently ends in such a space.
pub open spec fn collapse(s: Seq<char>) -> (Seq<char>, bool)
    decreases s.len(),
{
    if s.len() == 0 {
        (seq![], false)
    } else {
        let (out, prev_space) = collapse(s.drop_last());
        let c = s.last();
        if is_ascii_alnum(c) {
            (out.push(ascii_lower(c)), false)
        } else if !prev_space {
            (out.push(' '), true)
        } else {
            (out, prev_space)
        }
    }
}

/// A title reduced to lower-case words separated by single spaces.
pub open spec fn spec_normalize_title(s: Seq<char>) -> Seq<char> {
    trim_ws(collapse(s).0)
}

/// Reduce a title to lower-case ASCII words separated by single spaces: letters and digits
/// are lower-cased, every run of other characters becomes one space, and the ends are trimmed.
pub fn normalize_title(input: &str) -> (s: String)
    ensures
        s@ == spec_normalize_title(input@),
{
    let chars = chars_of(input);
    let mut out: Vec<char> = Vec::new();
    let mut prev_space = false;
    let mut i: usize = 0;
    assert(chars@.subrange(0, 0) =~= Seq::<char>::empty());
    while i < chars.len()
        invariant
            i <= chars@.len(),
            chars@ == input@,
            (out@, prev_space) == collapse(chars@.subrange(0, i as int)),
        decreases chars@.len() - i,
    {
        let c = chars[i];
        assert(chars@.subrange(0, i + 1).drop_last() =~= chars@.subrange(0, i as int));
        if ('a' <= c && c <= 'z') || ('A' <= c && c <= 'Z') || ('0' <= c && c <= '9') {
            out.push(to_lower(c));
            prev_space = false;
        } else if !prev_space {
            out.push(' ');
            prev_space = true;
        }
        i = i + 1;
    }
    assert(chars@.subrange(0, i as int) =~= chars@);
    string_from_chars(&trim_ws_vec(&out))
}

/// A character of a normalized title: a lower-case ASCII letter, a digit or a space.
pub open spec fn norm_char(c: char) -> bool {
    ('a' <= c && c <= 'z') || ('0' <= c && c <= '9') || c == ' '
}

/// No space of `t` follows another.
pub open spec fn no_double_space(t: Seq<char>) -> bool {
    forall|i: int| 0 < i < t.len() && #[trigger] t[i] == ' ' ==> t[i - 1] != ' '
}

/// A title in normal form: lower-case letters and digits in words separated by single spaces.
pub open spec fn is_normalized(t: Seq<char>) -> bool {
    &&& forall|i: int| 0 <= i < t.len() ==> norm_char(#[trigger] t[i])
    &&& no_double_space(t)
    &&& t.len() > 0 ==> t[0] != ' ' && t.last() != ' '
}

proof fn lemma_collapse_shape(s: Seq<char>)
    ensures
        forall|i: int| 0 <= i < collapse(s).0.len() ==> norm_char(#[trigger] collapse(s).0[i]),
        no_double_space(collapse(s).0),
        collapse(s).1 == (collapse(s).0.len() > 0 && collapse(s).0.last() == ' '),
    decreases s.len(),
{
    if s.len() > 0 {
        lemma_collapse_shape(s.drop_last());
        let (out, prev) = collapse(s.drop_last());
        let c = s.last();
        if 'A' <= c && c <= 'Z' {
            assert(ascii_lower(c) as u32 == c as u32 + 32);
        }
        let now = collapse(s).0;
        assert forall|i: int| 0 <= i < now.len() implies norm_char(#[trigger] now[i]) by {
            if i < out.len() {
                assert(now[i] == out[i]);
            }
        }
        assert forall|i: int| 0 < i < now.len() && #[trigger] now[i] == ' ' implies now[i - 1] != ' ' by {
            if i < out.len() {
                assert(now[i] == out[i] && now[i - 1] == out[i - 1]);
            }
        }
    }
}

proof fn lemma_collapse_fixed(t: Seq<char>)
    requires
        forall|i: int| 0 <= i < t.len() ==> norm_char(#[trigger] t[i]),
        no_double_space(t),
        t.len() > 0 ==> t[0] != ' ',
    ensures
        collapse(t) == (t, t.len() > 0 && t.last() == ' '),
    decreases t.len(),
{
    if t.len() > 0 {
        let u = t.drop_last();
        assert forall|i: int| 0 <= i < u.len() implies norm_char(#[trigger] u[i]) by {
            assert(u[i] == t[i]);
        }
        assert forall|i: int| 0 < i < u.len() && #[trigger] u[i] == ' ' implies u[i - 1] != ' ' by {
            assert(u[i] == t[i] && u[i - 1] == t[i - 1]);
        }
        if u.len() > 0 {
            assert(u[0] == t[0]);
        }
        lemma_collapse_fixed(u);
        let c = t.last();
        assert(norm_char(t[t.len() - 1]));
        if c == ' ' {
            assert(t.len() > 1);
            assert(t[t.len() - 2] != ' ');
            assert(u.last() == t[t.len() - 2]);
        }
        assert(u.push(c) =~= t);
    }
}

proof fn lemma_trim_fixed(t: Seq<char>)
    requires
        is_normalized(t),
    ensures
        trim_ws(t) == t,
{
    let drop = |c: char| crate::text::is_unicode_whitespace(c);
    if t.len() > 0 {
        assert(!drop(t[0]));
        assert(!drop(t.last()));
        assert(crate::cli::leading_count(t, drop) == 0);
        assert(crate::cli::trailing_count(t, drop) == 0);
        assert(t.subrange(0, t.len() as int) =~= t);
    } else {
        assert(trim_ws(t) =~= t);
    }
}

/// Normalizing a title gives a title in normal form.
pub proof fn lemma_normalized_form(s: Seq<char>)
    ensures
        is_normalized(spec_normalize_title(s)),
{
    lemma_collapse_shape(s);
    let out = collapse(s).0;
    let t = trim_ws(out);
    crate::cli::lemma_trim_ws_within(out);
    crate::cli::lemma_trim_ws_ends(out);
    let front = crate::cli::leading_count(out, |c: char| crate::text::is_unicode_whitespace(c));
    assert forall|i: int| 0 <= i < t.len() implies norm_char(#[trigger] t[i]) by {
        assert(t[i] == out[i + front]);
    }
    assert forall|i: int| 0 < i < t.len() && #[trigger] t[i] == ' ' implies t[i - 1] != ' ' by {
        assert(t[i] == out[i + front] && t[i - 1] == out[i - 1 + front]);
    }
}

/// Normalizing a normalized title changes nothing.
pub proof fn lemma_normalize_idempotent(s: Seq<char>)
    ensures
        spec_normalize_title(spec_normalize_title(s)) == spec_normalize_title(s),
{
    let n = spec_normalize_title(s);
    lemma_normalized_form(s);
    lemma_collapse_fixed(n);
    lemma_trim_fixed(n);
}

/// A title and its normalized form have the same game id.
pub proof fn lemma_game_id_of_normalized(s: Seq<char>)
    ensures
        spec_game_id(spec_normalize_title(s)) == spec_game_id(s),
{
    lemma_normalize_idempotent(s);
}

/// A title slug: the normalized title with spaces replaced by `-`.
pub open spec fn spec_slugify(s: Seq<char>) -> Seq<char> {
    spec_normalize_title(s).map_values(|c: char| if c == ' ' { '-' } else { c })
}

/// A title slug: the normalized title with spaces replaced by `-`.
pub fn slugify(input: &str) -> (s: String)
    ensures
        s@ == spec_slugify(input@),
{
    let normalized = chars_of(normalize_title(input).as_str());
    let mut out: Vec<char> = Vec::new();
    let mut i: usize = 0;
    while i < normalized.len()
        invariant
            i <= normalized@.len(),
            normalized@ == spec_normalize_title(input@),
            out@ == normalized@.subrange(0, i as int).map_values(|c: char| if c == ' ' { '-' } else { c }),
        decreases normalized@.len() - i,
    {
        let c = normalized[i];
        out.push(if c == ' ' { '-' } else { c });
        assert(normalized@.subrange(0, i + 1).map_values(|c: char| if c == ' ' { '-' } else { c })
            =~= normalized@.subrange(0, i as int).map_values(|c: char| if c == ' ' { '-' } else { c }).push(if c == ' ' { '-' } else { c }));
        i = i + 1;
    }
    assert(normalized@.subrange(0, i as int) =~= normalized@);
    string_from_chars(&out)
}

/// The SHA-1 digest of a byte string.
pub uninterp spec fn sha1_of(bytes: Seq<u8>) -> Seq<u8>;

/// Digests bytes with SHA-1.
///
/// Wraps `sha1::Sha1::digest` (through `digest::Digest`), whose 20-byte output is a function
/// of the input alone; which bytes those are is not stated here.
#[verifier::external_body]
fn sha1_digest(bytes: &[u8]) -> (d: [u8; 20])
    ensures
        d@ == sha1_of(bytes@),
{
    <sha1::Sha1 as sha1::Digest>::digest(bytes).into()
}



/// The bytes of an ASCII text.
pub open spec fn ascii_bytes(s: Seq<char>) -> Seq<u8> {
    s.map_values(|c: char| (c as u32) as u8)
}

/// The stable id of a game title: the lower-case hexadecimal SHA-1 digest of its normalized
/// form.
pub open spec fn spec_game_id(title: Seq<char>) -> Seq<char> {
    lower_hex(sha1_of(ascii_bytes(spec_normalize_title(title))))
}


/// The normalized form only holds ASCII letters, digits and spaces.
proof fn lemma_collapse_ascii(s: Seq<char>)
    ensures
        forall|i: int| 0 <= i < collapse(s).0.len() ==> (#[trigger] collapse(s).0[i]) as u32 <= 127,
    decreases s.len(),
{
    if s.len() > 0 {
        lemma_collapse_ascii(s.drop_last());
        let c = s.last();
        if 'A' <= c && c <= 'Z' {
            assert(ascii_lower(c) as u32 == c as u32 + 32);
        }
        let (out, prev_space) = collapse(s.drop_last());
        assert forall|i: int| 0 <= i < collapse(s).0.len() implies (#[trigger] collapse(s).0[i]) as u32 <= 127 by {
            if i < out.len() {
                assert(collapse(s).0[i] == out[i]);
            }
        }
    }
}

/// The stable id of a game title: the lower-case hexadecimal SHA-1 digest of its normalized
/// form.
pub fn game_id_for_title(title: &str) -> (id: GameId)
    ensures
        id@ == spec_game_id(title@),
{
    let normalized = chars_of(normalize_title(title).as_str());
    proof {
        lemma_collapse_ascii(title@);
        let c = collapse(title@).0;
        crate::cli::lemma_trim_ws_within(c);
    }
    let mut bytes: Vec<u8> = Vec::new();
    let mut i: usize = 0;
    while i < normalized.len()
        invariant
            i <= normalized@.len(),
            normalized@ == spec_normalize_title(title@),
            forall|j: int| 0 <= j < normalized@.len() ==> (#[trigger] normalized@[j]) as u32 <= 127,
            bytes@ == ascii_bytes(normalized@.subrange(0, i as int)),
        decreases normalized@.len() - i,
    {
        let c = normalized[i];
        let b = (c as u32) as u8;
        bytes.push(b);
        assert(ascii_bytes(normalized@.subrange(0, i + 1)) =~= ascii_bytes(normalized@.subrange(0, i as int)).push(b));
        i = i + 1;
    }
    assert(normalized@.subrange(0, i as int) =~= normalized@);
    let digest = sha1_digest(bytes.as_slice());
    let mut id = String::new();
    let mut k: usize = 0;
    while k < 20
        invariant
            k <= 20,
            digest@.len() == 20,
            id@ == lower_hex(digest@.subrange(0, k as int)),
        decreases 20 - k,
    {
        let byte = digest[k];
        push_char(&mut id, lower_digit_char(byte / 16));
        push_char(&mut id, lower_digit_char(byte % 16));
        assert(digest@.subrange(0, k + 1).drop_last() =~= digest@.subrange(0, k as int));
        assert(id@ =~= lower_hex(digest@.subrange(0, k + 1)));
        k = k + 1;
    }
    assert(digest@.subrange(0, 20) =~= digest@);
    id
}

/// Whether an entry passes a target's game id, title and ROM path restrictions.
pub open spec fn selected(e: LibraryEntry, t: LibraryTarget) -> bool {
    &&& (t.game_id matches Some(id) ==> e.game_id@ == id@)
    &&& (t.title matches Some(title) ==> contains_seq(
        spec_normalize_title(e.display_title@),
        spec_normalize_title(title@),
    ))
    &&& (t.rom_path matches Some(path) ==> (e.local matches Some(local) && local.rom_path@ == path@))
}

/// The entries a target selects, in order.
pub open spec fn select_spec(entries: Seq<LibraryEntry>, t: LibraryTarget) -> Seq<LibraryEntry>
    decreases entries.len(),
{
    if entries.len() == 0 {
        seq![]
    } else {
        let earlier = select_spec(entries.drop_last(), t);
        if selected(entries.last(), t) { earlier.push(entries.last()) } else { earlier }
    }
}

fn is_selected(e: &LibraryEntry, t: &LibraryTarget) -> (r: bool)
    ensures
        r == selected(*e, *t),
{
    match &t.game_id {
        Some(id) => {
            if !e.game_id.eq(id) {
                return false;
            }
        },
        None => {},
    }
    match &t.title {
        Some(title) => {
            let haystack = chars_of(normalize_title(e.display_title.as_str()).as_str());
            let needle = chars_of(normalize_title(title.as_str()).as_str());
            if !contains_chars(&haystack, &needle) {
                return false;
            }
        },
        None => {},
    }
    match &t.rom_path {
        Some(path) => match &e.local {
            Some(local) => {
                if !local.rom_path.eq(path) {
                    return false;
                }
            },
            None => {
                return false;
            },
        },
        None => {},
    }
    true
}

/// Keep the entries whose game id, title and ROM path match the target's restrictions.
pub fn select_entries(entries: Vec<LibraryEntry>, target: &LibraryTarget) -> (r: Vec<LibraryEntry>)
    ensures
        r@ == select_spec(entries@, *target),
{
    let ghost all = entries@;
    let mut rest = entries;
    let total = rest.len();
    let mut out: Vec<LibraryEntry> = Vec::new();
    let mut i: usize = 0;
    assert(all.subrange(0, 0) =~= Seq::<LibraryEntry>::empty());
    assert(rest@ =~= all.subrange(0, all.len() as int));
    while rest.len() > 0
        invariant
            i + rest@.len() == all.len(),
            all.len() <= usize::MAX,
            rest@ == all.subrange(i as int, all.len() as int),
            out@ == select_spec(all.subrange(0, i as int), *target),
        decreases rest@.len(),
    {
        let e = rest.remove(0);
        assert(all.subrange(0, i + 1).drop_last() =~= all.subrange(0, i as int));
        assert(all.subrange(0, i + 1).last() == e);
        if is_selected(&e, target) {
            out.push(e);
        }
        assert(rest@ =~= all.subrange(i + 1, all.len() as int));
        i = i + 1;
    }
    assert(all.subrange(0, i as int) =~= all);
    out
}

/// Text order: by code point, a proper prefix first.
pub open spec fn text_before(a: Seq<char>, b: Seq<char>) -> bool
    decreases a.len(),
{
    if a.len() == 0 {
        b.len() > 0
    } else if b.len() == 0 {
        false
    } else if a[0] != b[0] {
        a[0] < b[0]
    } else {
        text_before(a.drop_first(), b.drop_first())
    }
}

/// No text comes before itself.
pub proof fn lemma_text_before_irreflexive(a: Seq<char>)
    ensures
        !text_before(a, a),
    decreases a.len(),
{
    if a.len() > 0 {
        lemma_text_before_irreflexive(a.drop_first());
    }
}

/// Two texts are equal or one comes before the other, but not both.
pub proof fn lemma_text_before_total(a: Seq<char>, b: Seq<char>)
    ensures
        a == b || text_before(a, b) || text_before(b, a),
        !(text_before(a, b) && text_before(b, a)),
    decreases a.len(),
{
    if a.len() > 0 && b.len() > 0 && a[0] == b[0] {
        lemma_text_before_total(a.drop_first(), b.drop_first());
        if a.drop_first() == b.drop_first() {
            assert(a =~= seq![a[0]] + a.drop_first());
            assert(b =~= seq![b[0]] + b.drop_first());
        }
    } else if a.len() == 0 && b.len() == 0 {
        assert(a =~= b);
    }
}

/// Text order is transitive.
pub proof fn lemma_text_before_transitive(a: Seq<char>, b: Seq<char>, c: Seq<char>)
    requires
        text_before(a, b),
        text_before(b, c),
    ensures
        text_before(a, c),
    decreases a.len(),
{
    if a.len() > 0 && b.len() > 0 && c.len() > 0 && a[0] == b[0] && b[0] == c[0] {
        lemma_text_before_transitive(a.drop_first(), b.drop_first(), c.drop_first());
    }
}

/// Whether `a` comes before `b` in text order.
pub fn text_before_exec(a: &str, b: &str) -> (r: bool)
    ensures
        r == text_before(a@, b@),
{
    let x = chars_of(a);
    let y = chars_of(b);
    let mut i: usize = 0;
    assert(x@.subrange(0, x@.len() as int) =~= x@);
    assert(y@.subrange(0, y@.len() as int) =~= y@);
    while i < x.len() && i < y.len() && x[i] == y[i]
        invariant
            i <= x@.len(),
            i <= y@.len(),
            x@ == a@,
            y@ == b@,
            text_before(a@, b@) == text_before(x@.subrange(i as int, x@.len() as int), y@.subrange(i as int, y@.len() as int)),
        decreases x@.len() - i,
    {
        assert(x@.subrange(i as int, x@.len() as int).drop_first() =~= x@.subrange(i + 1, x@.len() as int));
        assert(y@.subrange(i as int, y@.len() as int).drop_first() =~= y@.subrange(i + 1, y@.len() as int));
        i = i + 1;
    }
    let ghost xs = x@.subrange(i as int, x@.len() as int);
    let ghost ys = y@.subrange(i as int, y@.len() as int);
    if i == x.len() {
        assert(xs.len() == 0);
        i < y.len()
    } else if i == y.len() {
        false
    } else {
        assert(xs[0] == x@[i as int] && ys[0] == y@[i as int]);
        x[i] < y[i]
    }
}

/// The last record of `locals` for a game id.
pub open spec fn last_local(locals: Seq<LocalRomInfo>, id: Seq<char>) -> Option<LocalRomInfo>
    decreases locals.len(),
{
    if locals.len() == 0 {
        None
    } else if locals.last().game_id@ == id {
        Some(locals.last())
    } else {
        last_local(locals.drop_last(), id)
    }
}

/// The last record of `records` for a game id.
pub open spec fn last_metadata(records: Seq<GameMetadata>, id: Seq<char>) -> Option<GameMetadata>
    decreases records.len(),
{
    if records.len() == 0 {
        None
    } else if records.last().game_id@ == id {
        Some(records.last())
    } else {
        last_metadata(records.drop_last(), id)
    }
}

/// The game ids of the first `n` local ROMs.
pub open spec fn local_ids(locals: Seq<LocalRomInfo>, n: int) -> Set<Seq<char>> {
    Set::new(|id: Seq<char>| exists|k: int| 0 <= k < n && #[trigger] locals[k].game_id@ == id)
}

/// The game ids of the first `n` metadata records.
pub open spec fn record_ids(records: Seq<GameMetadata>, n: int) -> Set<Seq<char>> {
    Set::new(|id: Seq<char>| exists|k: int| 0 <= k < n && #[trigger] records[k].game_id@ == id)
}

/// The game ids of local ROMs and metadata records together.
pub open spec fn merged_ids(locals: Seq<LocalRomInfo>, records: Seq<GameMetadata>) -> Set<Seq<char>> {
    local_ids(locals, locals.len() as int).union(record_ids(records, records.len() as int))
}

proof fn lemma_local_ids_step(locals: Seq<LocalRomInfo>, n: int)
    requires
        0 <= n < locals.len(),
    ensures
        local_ids(locals, n + 1) == local_ids(locals, n).insert(locals[n].game_id@),
{
    assert forall|id: Seq<char>| #[trigger] local_ids(locals, n + 1).contains(id) implies local_ids(locals, n).insert(locals[n].game_id@).contains(id) by {
        let k = choose|k: int| 0 <= k < n + 1 && #[trigger] locals[k].game_id@ == id;
        if k < n {
            assert(local_ids(locals, n).contains(id));
        }
    }
    assert forall|id: Seq<char>| #[trigger] local_ids(locals, n).insert(locals[n].game_id@).contains(id) implies local_ids(locals, n + 1).contains(id) by {
        if id == locals[n].game_id@ {
            assert(locals[n].game_id@ == id);
        } else {
            let k = choose|k: int| 0 <= k < n && #[trigger] locals[k].game_id@ == id;
            assert(locals[k].game_id@ == id);
        }
    }
    assert(local_ids(locals, n + 1) =~= local_ids(locals, n).insert(locals[n].game_id@));
}

proof fn lemma_record_ids_step(records: Seq<GameMetadata>, n: int)
    requires
        0 <= n < records.len(),
    ensures
        record_ids(records, n + 1) == record_ids(records, n).insert(records[n].game_id@),
{
    assert forall|id: Seq<char>| #[trigger] record_ids(records, n + 1).contains(id) implies record_ids(records, n).insert(records[n].game_id@).contains(id) by {
        let k = choose|k: int| 0 <= k < n + 1 && #[trigger] records[k].game_id@ == id;
        if k < n {
            assert(record_ids(records, n).contains(id));
        }
    }
    assert forall|id: Seq<char>| #[trigger] record_ids(records, n).insert(records[n].game_id@).contains(id) implies record_ids(records, n + 1).contains(id) by {
        if id == records[n].game_id@ {
            assert(records[n].game_id@ == id);
        } else {
            let k = choose|k: int| 0 <= k < n && #[trigger] records[k].game_id@ == id;
            assert(records[k].game_id@ == id);
        }
    }
    assert(record_ids(records, n + 1) =~= record_ids(records, n).insert(records[n].game_id@));
}

/// Texts strictly increasing in text order.
pub open spec fn strictly_sorted(s: Seq<Seq<char>>) -> bool {
    forall|i: int, j: int| 0 <= i < j < s.len() ==> text_before(#[trigger] s[i], #[trigger] s[j])
}

/// The texts of strings.
pub open spec fn texts(v: Seq<String>) -> Seq<Seq<char>> {
    v.map_values(|s: String| s@)
}

/// The title an entry is listed under: the metadata title, else the local title, else the id.
pub open spec fn listed_title(id: Seq<char>, local: Option<LocalRomInfo>, metadata: Option<GameMetadata>) -> Seq<char> {
    match metadata {
        Some(m) => m.title@,
        None => match local {
            Some(l) => l.title@,
            None => id,
        },
    }
}

/// The merged entry for one game id, before covers and cheats are attached.
pub open spec fn merged_entry(e: LibraryEntry, locals: Seq<LocalRomInfo>, records: Seq<GameMetadata>) -> bool {
    let local = last_local(locals, e.game_id@);
    let metadata = last_metadata(records, e.game_id@);
    &&& e.local == local
    &&& e.metadata == metadata
    &&& e.display_title@ == listed_title(e.game_id@, local, metadata)
    &&& e.installed_status == if local is Some { InstalledStatus::Installed } else { InstalledStatus::Missing }
    &&& e.cover is None
    &&& e.cheats@.len() == 0
}

/// Add `id` to strictly sorted `ids`, keeping them strictly sorted.
fn insert_id(ids: &mut Vec<String>, id: &String)
    requires
        strictly_sorted(texts(old(ids)@)),
    ensures
        strictly_sorted(texts(final(ids)@)),
        texts(final(ids)@).to_set() == texts(old(ids)@).to_set().insert(id@),
{
    let n = ids.len();
    let mut k: usize = 0;
    while k < n && text_before_exec(ids[k].as_str(), id.as_str())
        invariant
            k <= n,
            n == ids@.len(),
            forall|i: int| 0 <= i < k ==> text_before(#[trigger] texts(ids@)[i], id@),
        decreases n - k,
    {
        k = k + 1;
    }
    let ghost before = texts(ids@);
    if k < n && ids[k].eq(id) {
        assert(before.to_set() =~= before.to_set().insert(id@)) by {
            assert(before[k as int] == id@);
        }
        return;
    }
    proof {
        if k < n {
            lemma_text_before_total(before[k as int], id@);
        }
    }
    ids.insert(k, id.clone());
    assert(texts(ids@) =~= before.insert(k as int, id@));
    proof {
        let after = texts(ids@);
        assert forall|i: int, j: int| 0 <= i < j < after.len() implies text_before(#[trigger] after[i], #[trigger] after[j]) by {
            if j < k {
            } else if j == k {
            } else if i < k {
                assert(after[j] == before[j - 1]);
                if i < k {
                    assert(text_before(before[i], id@));
                    lemma_text_before_transitive(before[i], id@, before[k as int]);
                    if j - 1 > k {
                        lemma_text_before_transitive(before[i], before[k as int], before[j - 1]);
                    }
                }
            } else if i == k {
                assert(after[j] == before[j - 1]);
                if j - 1 > k {
                    lemma_text_before_transitive(id@, before[k as int], before[j - 1]);
                }
            } else {
                assert(after[i] == before[i - 1]);
                assert(after[j] == before[j - 1]);
            }
        }
        assert forall|x: Seq<char>| after.to_set().contains(x) <==> before.to_set().insert(id@).contains(x) by {
            if after.to_set().contains(x) {
                let i = choose|i: int| 0 <= i < after.len() && after[i] == x;
                if i < k {
                    assert(before[i] == x);
                } else if i > k {
                    assert(before[i - 1] == x);
                }
            }
            if before.to_set().contains(x) {
                let i = choose|i: int| 0 <= i < before.len() && before[i] == x;
                if i < k {
                    assert(after[i] == x);
                } else {
                    assert(after[i + 1] == x);
                }
            }
            if x == id@ {
                assert(after[k as int] == x);
            }
        }
        assert(after.to_set() =~= before.to_set().insert(id@));
    }
}

fn clone_text(s: &Option<String>) -> (c: Option<String>)
    ensures
        c == *s,
{
    match s {
        Some(t) => Some(t.clone()),
        None => None,
    }
}

impl Clone for LocalRomInfo {
    fn clone(&self) -> (c: Self)
        ensures
            c == *self,
    {
        LocalRomInfo {
            game_id: self.game_id.clone(),
            title: self.title.clone(),
            normalized_title: self.normalized_title.clone(),
            rom_path: self.rom_path.clone(),
            mapper: self.mapper.clone(),
            coprocessor: clone_text(&self.coprocessor),
            region: self.region.clone(),
            file_size_bytes: self.file_size_bytes,
        }
    }
}

impl Clone for GameMetadata {
    fn clone(&self) -> (c: Self)
        ensures
            c == *self,
    {
        GameMetadata {
            game_id: self.game_id.clone(),
            title: self.title.clone(),
            normalized_title: self.normalized_title.clone(),
            source: self.source.clone(),
            cover_url: clone_text(&self.cover_url),
            has_cheat_files: self.has_cheat_files,
            fetched_at_unix: self.fetched_at_unix,
        }
    }
}

fn find_last_local(locals: &[LocalRomInfo], id: &String) -> (r: Option<LocalRomInfo>)
    ensures
        r == last_local(locals@, id@),
{
    let mut i: usize = locals.len();
    assert(locals@.subrange(0, i as int) =~= locals@);
    while i > 0
        invariant
            i <= locals@.len(),
            last_local(locals@, id@) == last_local(locals@.subrange(0, i as int), id@),
        decreases i,
    {
        assert(locals@.subrange(0, i as int).drop_last() =~= locals@.subrange(0, i - 1));
        if locals[i - 1].game_id.eq(id) {
            return Some(locals[i - 1].clone());
        }
        i = i - 1;
    }
    None
}

fn find_last_metadata(records: &[GameMetadata], id: &String) -> (r: Option<GameMetadata>)
    ensures
        r == last_metadata(records@, id@),
{
    let mut i: usize = records.len();
    assert(records@.subrange(0, i as int) =~= records@);
    while i > 0
        invariant
            i <= records@.len(),
            last_metadata(records@, id@) == last_metadata(records@.subrange(0, i as int), id@),
        decreases i,
    {
        assert(records@.subrange(0, i as int).drop_last() =~= records@.subrange(0, i - 1));
        if records[i - 1].game_id.eq(id) {
            return Some(records[i - 1].clone());
        }
        i = i - 1;
    }
    None
}

/// Merge local ROMs and cached metadata into one entry per game id, ordered by game id; the
/// last record of each kind for an id wins. Covers and cheats are attached separately.
pub fn merge_library_entries(local_roms: &[LocalRomInfo], metadata_records: &[GameMetadata]) -> (entries: Vec<LibraryEntry>)
    ensures
        strictly_sorted(entries@.map_values(|e: LibraryEntry| e.game_id@)),
        entries@.map_values(|e: LibraryEntry| e.game_id@).to_set() == merged_ids(local_roms@, metadata_records@),
        forall|i: int| 0 <= i < entries@.len() ==> merged_entry(#[trigger] entries@[i], local_roms@, metadata_records@),
{
    let mut ids: Vec<String> = Vec::new();
    assert(texts(ids@).to_set() =~= local_ids(local_roms@, 0));
    let mut i: usize = 0;
    while i < local_roms.len()
        invariant
            i <= local_roms@.len(),
            strictly_sorted(texts(ids@)),
            texts(ids@).to_set() == local_ids(local_roms@, i as int),
        decreases local_roms@.len() - i,
    {
        insert_id(&mut ids, &local_roms[i].game_id);
        proof { lemma_local_ids_step(local_roms@, i as int); }
        i = i + 1;
    }
    assert(record_ids(metadata_records@, 0) =~= Set::<Seq<char>>::empty());
    assert(texts(ids@).to_set() =~= local_ids(local_roms@, local_roms@.len() as int).union(record_ids(metadata_records@, 0)));
    let mut j: usize = 0;
    while j < metadata_records.len()
        invariant
            j <= metadata_records@.len(),
            strictly_sorted(texts(ids@)),
            texts(ids@).to_set() == local_ids(local_roms@, local_roms@.len() as int).union(record_ids(metadata_records@, j as int)),
        decreases metadata_records@.len() - j,
    {
        insert_id(&mut ids, &metadata_records[j].game_id);
        proof { lemma_record_ids_step(metadata_records@, j as int); }
        assert(texts(ids@).to_set() =~= local_ids(local_roms@, local_roms@.len() as int).union(record_ids(metadata_records@, j + 1)));
        j = j + 1;
    }
    assert(texts(ids@).to_set() =~= merged_ids(local_roms@, metadata_records@));
    let mut entries: Vec<LibraryEntry> = Vec::new();
    let mut k: usize = 0;
    while k < ids.len()
        invariant
            k <= ids@.len(),
            entries@.len() == k,
            forall|q: int| 0 <= q < k ==> (#[trigger] entries@[q]).game_id@ == texts(ids@)[q],
            forall|q: int| 0 <= q < k ==> merged_entry(#[trigger] entries@[q], local_roms@, metadata_records@),
        decreases ids@.len() - k,
    {
        let id = &ids[k];
        let local = find_last_local(local_roms, id);
        let metadata = find_last_metadata(metadata_records, id);
        let display_title = match &metadata {
            Some(m) => m.title.clone(),
            None => match &local {
                Some(l) => l.title.clone(),
                None => id.clone(),
            },
        };
        let installed_status = if local.is_some() { InstalledStatus::Installed } else { InstalledStatus::Missing };
        entries.push(LibraryEntry {
            game_id: id.clone(),
            display_title,
            installed_status,
            local,
            metadata,
            cover: None,
            cheats: Vec::new(),
        });
        k = k + 1;
    }
    assert(entries@.map_values(|e: LibraryEntry| e.game_id@) =~= texts(ids@));
    entries
}

/// Number of installed entries.
pub open spec fn installed_count(entries: Seq<LibraryEntry>) -> nat
    decreases entries.len(),
{
    if entries.len() == 0 {
        0
    } else {
        installed_count(entries.drop_last()) + if entries.last().installed_status == InstalledStatus::Installed { 1nat } else { 0nat }
    }
}

/// Whether a snapshot shows an entry: installed entries only when `installed_only`, and titles
/// whose normalized form contains the normalized query when the query is not empty.
pub open spec fn shown(e: LibraryEntry, installed_only: bool, query: Seq<char>) -> bool {
    &&& (!installed_only || e.installed_status == InstalledStatus::Installed)
    &&& (query.len() == 0 || contains_seq(spec_normalize_title(e.display_title@), spec_normalize_title(query)))
}

/// The entries a snapshot shows, in their original order.
pub open spec fn shown_entries(entries: Seq<LibraryEntry>, installed_only: bool, query: Seq<char>) -> Seq<LibraryEntry>
    decreases entries.len(),
{
    if entries.len() == 0 {
        seq![]
    } else {
        let earlier = shown_entries(entries.drop_last(), installed_only, query);
        if shown(entries.last(), installed_only, query) { earlier.push(entries.last()) } else { earlier }
    }
}

/// Entries ordered by display title.
pub open spec fn title_sorted(entries: Seq<LibraryEntry>) -> bool {
    forall|i: int, j: int| 0 <= i < j < entries.len()
        ==> !text_before(#[trigger] entries[j].display_title@, #[trigger] entries[i].display_title@)
}

proof fn lemma_installed_count_bound(entries: Seq<LibraryEntry>)
    ensures
        installed_count(entries) <= entries.len(),
    decreases entries.len(),
{
    if entries.len() > 0 {
        lemma_installed_count_bound(entries.drop_last());
    }
}

/// `e` inserted into `s` before the first entry whose title comes after its own.
pub open spec fn insert_title_spec(s: Seq<LibraryEntry>, e: LibraryEntry) -> Seq<LibraryEntry>
    decreases s.len(),
{
    if s.len() == 0 {
        seq![e]
    } else if text_before(e.display_title@, s[0].display_title@) {
        seq![e] + s
    } else {
        seq![s[0]] + insert_title_spec(s.drop_first(), e)
    }
}

/// The entries ordered by display title, entries with the same title in their original order:
/// each entry in turn inserted after those with titles that do not come after its own.
pub open spec fn by_title(s: Seq<LibraryEntry>) -> Seq<LibraryEntry>
    decreases s.len(),
{
    if s.len() == 0 {
        seq![]
    } else {
        insert_title_spec(by_title(s.drop_last()), s.last())
    }
}

proof fn lemma_insert_title_at(s: Seq<LibraryEntry>, e: LibraryEntry, k: int)
    requires
        0 <= k <= s.len(),
        forall|i: int| 0 <= i < k ==> !text_before(e.display_title@, #[trigger] s[i].display_title@),
        k < s.len() ==> text_before(e.display_title@, s[k].display_title@),
    ensures
        insert_title_spec(s, e) == s.insert(k, e),
    decreases k,
{
    if k == 0 {
        if s.len() == 0 {
            assert(s.insert(0, e) =~= seq![e]);
        } else {
            assert(s.insert(0, e) =~= seq![e] + s);
        }
    } else {
        assert forall|i: int| 0 <= i < k - 1 implies !text_before(e.display_title@, #[trigger] s.drop_first()[i].display_title@) by {
            assert(s.drop_first()[i] == s[i + 1]);
        }
        lemma_insert_title_at(s.drop_first(), e, k - 1);
        assert(!text_before(e.display_title@, s[0].display_title@));
        assert(seq![s[0]] + s.drop_first().insert(k - 1, e) =~= s.insert(k, e));
    }
}

/// Insert `e` into title-ordered `out` after every entry whose title does not come after its own.
fn insert_by_title(out: &mut Vec<LibraryEntry>, e: LibraryEntry)
    requires
        title_sorted(old(out)@),
    ensures
        final(out)@ == insert_title_spec(old(out)@, e),
        title_sorted(final(out)@),
        final(out)@.to_multiset() == old(out)@.to_multiset().insert(e),
{
    let n = out.len();
    let mut k: usize = 0;
    while k < n && !text_before_exec(e.display_title.as_str(), out[k].display_title.as_str())
        invariant
            k <= n,
            n == out@.len(),
            forall|i: int| 0 <= i < k ==> !text_before(e.display_title@, #[trigger] out@[i].display_title@),
        decreases n - k,
    {
        k = k + 1;
    }
    let ghost before = out@;
    proof {
        vstd::seq_lib::to_multiset_insert(before, k as int, e);
        lemma_insert_title_at(before, e, k as int);
    }
    out.insert(k, e);
    proof {
        let after = out@;
        assert(after == before.insert(k as int, e));
        assert forall|i: int, j: int| 0 <= i < j < after.len()
            implies !text_before(#[trigger] after[j].display_title@, #[trigger] after[i].display_title@) by {
            let t = e.display_title@;
            if j < k {
                assert(after[i] == before[i] && after[j] == before[j]);
            } else if j == k {
                assert(after[i] == before[i]);
                lemma_text_before_total(t, before[i].display_title@);
            } else if i < k {
                assert(after[i] == before[i] && after[j] == before[j - 1]);
                if text_before(before[j - 1].display_title@, before[i].display_title@) {
                } else {
                }
            } else if i == k {
                assert(after[j] == before[j - 1]);
                assert(text_before(t, before[k as int].display_title@));
                if text_before(before[j - 1].display_title@, t) {
                    if j - 1 > k {
                        lemma_text_before_total(before[k as int].display_title@, before[j - 1].display_title@);
                        lemma_text_before_transitive(before[j - 1].display_title@, t, before[k as int].display_title@);
                    } else {
                        lemma_text_before_total(t, before[k as int].display_title@);
                    }
                }
            } else {
                assert(after[i] == before[i - 1] && after[j] == before[j - 1]);
            }
        }
    }
}

/// The snapshot of merged entries a filter shows, ordered by display title (entries with the
/// same title keep their order). Missing entries are shown only when `show_missing_games` holds
/// and the filter does not ask for installed entries only; the counts cover all entries.
pub fn library_snapshot(entries: Vec<LibraryEntry>, filter: LibraryFilter, show_missing_games: bool) -> (s: LibrarySnapshot)
    ensures
        s.total_count == entries@.len(),
        s.installed_count == installed_count(entries@),
        s.missing_count == entries@.len() - installed_count(entries@),
        s.entries@ == by_title(shown_entries(entries@, filter.installed_only || !show_missing_games, filter.query@)),
        title_sorted(s.entries@),
        s.entries@.to_multiset() == shown_entries(entries@, filter.installed_only || !show_missing_games, filter.query@).to_multiset(),
        s.filter == filter,
{
    let ghost all = entries@;
    let installed_only = filter.installed_only || !show_missing_games;
    let needle = chars_of(normalize_title(filter.query.as_str()).as_str());
    let has_query = filter.query.as_str().unicode_len() > 0;
    let mut rest = entries;
    let total = rest.len();
    let mut installed: usize = 0;
    let mut out: Vec<LibraryEntry> = Vec::new();
    let mut i: usize = 0;
    assert(all.subrange(0, 0) =~= Seq::<LibraryEntry>::empty());
    assert(rest@ =~= all.subrange(0, all.len() as int));
    proof { vstd::seq_lib::to_multiset_len(out@); }
    assert(out@.to_multiset() =~= Seq::<LibraryEntry>::empty().to_multiset()) by {
        assert(out@ =~= Seq::<LibraryEntry>::empty());
    }
    while rest.len() > 0
        invariant
            i + rest@.len() == all.len(),
            total == all.len(),
            rest@ == all.subrange(i as int, all.len() as int),
            installed == installed_count(all.subrange(0, i as int)),
            installed <= i,
            title_sorted(out@),
            out@ == by_title(shown_entries(all.subrange(0, i as int), installed_only, filter.query@)),
            out@.to_multiset() == shown_entries(all.subrange(0, i as int), installed_only, filter.query@).to_multiset(),
            needle@ == spec_normalize_title(filter.query@),
            has_query == (filter.query@.len() > 0),
        decreases rest@.len(),
    {
        let e = rest.remove(0);
        let ghost prefix = all.subrange(0, i + 1);
        assert(prefix.drop_last() =~= all.subrange(0, i as int));
        assert(prefix.last() == e);
        let is_installed = e.installed_status == InstalledStatus::Installed;
        if is_installed {
            installed = installed + 1;
        }
        let keep_status = !installed_only || is_installed;
        let keep_query = if has_query {
            let title = chars_of(normalize_title(e.display_title.as_str()).as_str());
            contains_chars(&title, &needle)
        } else {
            true
        };
        if keep_status && keep_query {
            let ghost before = out@;
            let ghost earlier = shown_entries(all.subrange(0, i as int), installed_only, filter.query@);
            proof {
                vstd::seq_lib::to_multiset_build(earlier, e);
                assert(earlier.push(e).drop_last() =~= earlier);
            }
            insert_by_title(&mut out, e);
        }
        assert(rest@ =~= all.subrange(i + 1, all.len() as int));
        i = i + 1;
    }
    assert(all.subrange(0, i as int) =~= all);
    proof { lemma_installed_count_bound(all); }
    LibrarySnapshot { entries: out, filter, total_count: total, installed_count: installed, missing_count: total - installed }
}

/// Where the library keeps its caches: the library setting, else the configured cache
/// directory, else the default cache root.
pub fn library_cache_root(library_cache_dir: &Option<String>, assets: &AssetConfig) -> (root: String)
    ensures
        root@ == match library_cache_dir {
            Some(dir) => dir@,
            None => assets.spec_cache_root(),
        },
{
    match library_cache_dir {
        Some(dir) => dir.clone(),
        None => assets.cache_root(),
    }
}

/// Where the cheats of a game are cached: `<root>/games/cheats/<id>.json`.
pub fn cheat_cache_path(cache_root: &str, game_id: &str) -> (p: String)
    ensures
        p@ == spec_join(spec_join(spec_join(cache_root@, "games"@), "cheats"@), game_id@ + ".json"@),
{
    let games = join_path(cache_root, "games");
    let cheats = join_path(games.as_str(), "cheats");
    let mut name = game_id.to_owned();
    name.append(".json");
    join_path(cheats.as_str(), name.as_str())
}

/// The enabled-cheat table as text: each game id with its enabled cheat ids.
pub open spec fn cheat_table(v: Seq<(String, Vec<String>)>) -> Seq<(Seq<char>, Seq<Seq<char>>)> {
    v.map_values(|e: (String, Vec<String>)| (e.0@, texts(e.1@)))
}

/// `list` with `cheat` enabled (added at the end unless it is there already) or disabled
/// (every occurrence removed).
pub open spec fn toggled(list: Seq<Seq<char>>, cheat: Seq<char>, enabled: bool) -> Seq<Seq<char>> {
    if enabled {
        if list.contains(cheat) { list } else { list.push(cheat) }
    } else {
        list.filter(differs_from(cheat))
    }
}

/// The test "is not `cheat`".
pub open spec fn differs_from(cheat: Seq<char>) -> spec_fn(Seq<char>) -> bool {
    |c: Seq<char>| c != cheat
}

/// The first position of game `g` in the table, -1 when it has no row.
pub open spec fn game_position(t: Seq<(Seq<char>, Seq<Seq<char>>)>, g: Seq<char>) -> int
    decreases t.len(),
{
    if t.len() == 0 {
        -1
    } else if t[0].0 == g {
        0
    } else {
        let r = game_position(t.drop_first(), g);
        if r < 0 { -1 } else { r + 1 }
    }
}

/// Where a row for a new game goes: before the first game whose id comes after `g`.
pub open spec fn game_insert_position(t: Seq<(Seq<char>, Seq<Seq<char>>)>, g: Seq<char>) -> int
    decreases t.len(),
{
    if t.len() == 0 {
        0
    } else if text_before(g, t[0].0) {
        0
    } else {
        1 + game_insert_position(t.drop_first(), g)
    }
}

/// The table after enabling or disabling `cheat` for game `g`: the game's row is updated, or a
/// new row is added in game-id order when there is none.
pub open spec fn with_cheat_enabled(t: Seq<(Seq<char>, Seq<Seq<char>>)>, g: Seq<char>, cheat: Seq<char>, enabled: bool)
    -> Seq<(Seq<char>, Seq<Seq<char>>)>
{
    let i = game_position(t, g);
    if i >= 0 {
        t.update(i, (g, toggled(t[i].1, cheat, enabled)))
    } else {
        t.insert(game_insert_position(t, g), (g, toggled(seq![], cheat, enabled)))
    }
}

proof fn lemma_game_position(t: Seq<(Seq<char>, Seq<Seq<char>>)>, g: Seq<char>, k: int)
    requires
        0 <= k <= t.len(),
        forall|q: int| 0 <= q < k ==> #[trigger] t[q].0 != g,
    ensures
        k < t.len() && t[k].0 == g ==> game_position(t, g) == k,
        k == t.len() ==> game_position(t, g) == -1,
    decreases k,
{
    if k > 0 {
        assert forall|q: int| 0 <= q < k - 1 implies #[trigger] t.drop_first()[q].0 != g by {
            assert(t.drop_first()[q] == t[q + 1]);
        }
        lemma_game_position(t.drop_first(), g, k - 1);
    }
}

proof fn lemma_game_insert_position(t: Seq<(Seq<char>, Seq<Seq<char>>)>, g: Seq<char>, k: int)
    requires
        0 <= k <= t.len(),
        forall|q: int| 0 <= q < k ==> !text_before(g, #[trigger] t[q].0),
        k < t.len() ==> text_before(g, t[k].0),
    ensures
        game_insert_position(t, g) == k,
    decreases k,
{
    if k > 0 {
        assert forall|q: int| 0 <= q < k - 1 implies !text_before(g, #[trigger] t.drop_first()[q].0) by {
            assert(t.drop_first()[q] == t[q + 1]);
        }
        lemma_game_insert_position(t.drop_first(), g, k - 1);
    }
}

/// The enabled cheats of game `g`: the list of its first row, if it has one.
pub open spec fn row_of(t: Seq<(Seq<char>, Seq<Seq<char>>)>, g: Seq<char>) -> Option<Seq<Seq<char>>> {
    let i = game_position(t, g);
    if i >= 0 { Some(t[i].1) } else { None }
}

proof fn lemma_game_position_bounds(t: Seq<(Seq<char>, Seq<Seq<char>>)>, g: Seq<char>)
    ensures
        -1 <= game_position(t, g) < t.len(),
        game_position(t, g) >= 0 ==> t[game_position(t, g)].0 == g,
        forall|q: int| 0 <= q < game_position(t, g) ==> #[trigger] t[q].0 != g,
        game_position(t, g) == -1 ==> forall|q: int| 0 <= q < t.len() ==> #[trigger] t[q].0 != g,
    decreases t.len(),
{
    if t.len() > 0 && t[0].0 != g {
        lemma_game_position_bounds(t.drop_first(), g);
        assert forall|q: int| 0 <= q < game_position(t, g) implies #[trigger] t[q].0 != g by {
            if q > 0 {
                assert(t[q] == t.drop_first()[q - 1]);
            }
        }
        if game_position(t, g) == -1 {
            assert forall|q: int| 0 <= q < t.len() implies #[trigger] t[q].0 != g by {
                if q > 0 {
                    assert(t[q] == t.drop_first()[q - 1]);
                }
            }
        }
    }
}

proof fn lemma_filter_keeps_all(s: Seq<Seq<char>>, pred: spec_fn(Seq<char>) -> bool)
    requires
        forall|i: int| 0 <= i < s.len() ==> pred(#[trigger] s[i]),
    ensures
        s.filter(pred) == s,
    decreases s.len(),
{
    reveal_with_fuel(Seq::filter, 1);
    if s.len() > 0 {
        assert forall|i: int| 0 <= i < s.drop_last().len() implies pred(#[trigger] s.drop_last()[i]) by {
            assert(s.drop_last()[i] == s[i]);
        }
        lemma_filter_keeps_all(s.drop_last(), pred);
        assert(s.drop_last().push(s.last()) =~= s);
    }
}

proof fn lemma_toggled(list: Seq<Seq<char>>, cheat: Seq<char>, enabled: bool)
    ensures
        toggled(list, cheat, enabled).contains(cheat) == enabled,
        toggled(toggled(list, cheat, enabled), cheat, enabled) == toggled(list, cheat, enabled),
{
    let pred = differs_from(cheat);
    if enabled {
        if !list.contains(cheat) {
            assert(list.push(cheat)[list.len() as int] == cheat);
        }
    } else {
        let f = list.filter(pred);
        assert forall|i: int| 0 <= i < f.len() implies pred(#[trigger] f[i]) by {
            list.lemma_filter_pred(pred, i);
        }
        if f.contains(cheat) {
            let i = choose|i: int| 0 <= i < f.len() && f[i] == cheat;
            assert(pred(f[i]));
        }
        lemma_filter_keeps_all(f, pred);
    }
}

/// Enabling or disabling a cheat for a game: afterwards the game has a row whose list holds
/// the cheat exactly when it was enabled, that list is the old one (or an empty one) with the
/// cheat enabled or disabled, every other game's list is unchanged, and doing it again changes
/// nothing.
pub proof fn lemma_cheat_toggle(t: Seq<(Seq<char>, Seq<Seq<char>>)>, g: Seq<char>, cheat: Seq<char>, enabled: bool)
    ensures
        ({
            let u = with_cheat_enabled(t, g, cheat, enabled);
            &&& row_of(u, g) == Some(toggled(
                match row_of(t, g) { Some(l) => l, None => Seq::<Seq<char>>::empty() }, cheat, enabled))
            &&& row_of(u, g).unwrap().contains(cheat) == enabled
            &&& forall|h: Seq<char>| h != g ==> #[trigger] row_of(u, h) == row_of(t, h)
            &&& with_cheat_enabled(u, g, cheat, enabled) == u
        }),
{
    let u = with_cheat_enabled(t, g, cheat, enabled);
    lemma_game_position_bounds(t, g);
    let i = game_position(t, g);
    if i >= 0 {
        lemma_game_position(u, g, i);
        assert forall|q: int| 0 <= q < u.len() implies #[trigger] u[q].0 == t[q].0 by {}
        assert forall|h: Seq<char>| h != g implies #[trigger] row_of(u, h) == row_of(t, h) by {
            lemma_game_position_bounds(t, h);
            let j = game_position(t, h);
            if j >= 0 {
                lemma_game_position(u, h, j);
            } else {
                lemma_game_position(u, h, u.len() as int);
            }
        }
        lemma_toggled(t[i].1, cheat, enabled);
        assert(u.update(i, (g, toggled(u[i].1, cheat, enabled))) =~= u);
    } else {
        let p = game_insert_position(t, g);
        lemma_game_insert_position_bounds(t, g);
        assert forall|q: int| 0 <= q < p implies #[trigger] u[q].0 != g by {
            assert(u[q] == t[q]);
        }
        lemma_game_position(u, g, p);
        assert forall|h: Seq<char>| h != g implies #[trigger] row_of(u, h) == row_of(t, h) by {
            lemma_game_position_bounds(t, h);
            let j = game_position(t, h);
            if j >= 0 {
                if j < p {
                    assert forall|q: int| 0 <= q < j implies #[trigger] u[q].0 != h by {
                        assert(u[q] == t[q]);
                    }
                    assert(u[j] == t[j]);
                    lemma_game_position(u, h, j);
                } else {
                    assert forall|q: int| 0 <= q < j + 1 implies #[trigger] u[q].0 != h by {
                        if q < p {
                            assert(u[q] == t[q]);
                        } else if q > p {
                            assert(u[q] == t[q - 1]);
                        }
                    }
                    assert(u[j + 1] == t[j]);
                    lemma_game_position(u, h, j + 1);
                }
            } else {
                assert forall|q: int| 0 <= q < u.len() implies #[trigger] u[q].0 != h by {
                    if q < p {
                        assert(u[q] == t[q]);
                    } else if q > p {
                        assert(u[q] == t[q - 1]);
                    }
                }
                lemma_game_position(u, h, u.len() as int);
            }
        }
        lemma_toggled(seq![], cheat, enabled);
        assert(u.update(p, (g, toggled(u[p].1, cheat, enabled))) =~= u);
    }
}

proof fn lemma_game_insert_position_bounds(t: Seq<(Seq<char>, Seq<Seq<char>>)>, g: Seq<char>)
    ensures
        0 <= game_insert_position(t, g) <= t.len(),
    decreases t.len(),
{
    if t.len() > 0 && !text_before(g, t[0].0) {
        lemma_game_insert_position_bounds(t.drop_first(), g);
    }
}

/// `list` with `cheat` enabled or disabled.
fn toggle_cheat_list(list: Vec<String>, cheat: &str, enabled: bool) -> (r: Vec<String>)
    ensures
        texts(r@) == toggled(texts(list@), cheat@, enabled),
{
    let target = cheat.to_owned();
    if enabled {
        let mut k: usize = 0;
        while k < list.len()
            invariant
                enabled,
                k <= list@.len(),
                target@ == cheat@,
                forall|q: int| 0 <= q < k ==> list@[q]@ != cheat@,
            decreases list@.len() - k,
        {
            if list[k].eq(&target) {
                assert(texts(list@)[k as int] == cheat@);
                assert(texts(list@).contains(cheat@));
                return list;
            }
            k = k + 1;
        }
        assert(!texts(list@).contains(cheat@)) by {
            if texts(list@).contains(cheat@) {
                let q = choose|q: int| 0 <= q < texts(list@).len() && texts(list@)[q] == cheat@;
                assert(texts(list@)[q] == list@[q]@);
            }
        }
        let mut list = list;
        let ghost before = list@;
        list.push(target);
        assert(texts(list@) =~= texts(before).push(cheat@));
        list
    } else {
        let mut out: Vec<String> = Vec::new();
        let mut rest = list;
        let total = rest.len();
        let ghost all = texts(rest@);
        assert(all.len() == total);
        let ghost pred = differs_from(cheat@);
        let mut k: usize = 0;
        assert(all.subrange(0, 0) =~= Seq::<Seq<char>>::empty());
        assert(texts(rest@) =~= all.subrange(0, all.len() as int));
        while rest.len() > 0
            invariant
                k + rest@.len() == all.len(),
                all.len() <= usize::MAX,
                texts(rest@) == all.subrange(k as int, all.len() as int),
                texts(out@) == all.subrange(0, k as int).filter(pred),
                target@ == cheat@,
                pred == differs_from(cheat@),
            decreases rest@.len(),
        {
            let ghost old_rest = rest@;
            let item = rest.remove(0);
            assert(texts(rest@) =~= texts(old_rest).subrange(1, old_rest.len() as int));
            assert(all.subrange(0, k + 1).drop_last() =~= all.subrange(0, k as int));
            assert(all.subrange(0, k + 1).last() == item@) by {
                assert(all.subrange(k as int, all.len() as int)[0] == item@);
            }
            let ghost prefix = all.subrange(0, k + 1);
            proof { reveal_with_fuel(Seq::filter, 1); }
            assert(prefix.filter(pred) == if pred(prefix.last()) {
                prefix.drop_last().filter(pred).push(prefix.last())
            } else {
                prefix.drop_last().filter(pred)
            });
            if !item.eq(&target) {
                let ghost before = texts(out@);
                out.push(item);
                assert(texts(out@) =~= before.push(item@));
            }
            assert(texts(rest@) =~= all.subrange(k + 1, all.len() as int));
            k = k + 1;
        }
        assert(all.subrange(0, k as int) =~= all);
        out
    }
}

/// Enable or disable `cheat_id` for `game_id`; a game without a row gets one, in game-id order.
pub fn set_cheat_enabled(settings: &mut CheatSettings, game_id: &str, cheat_id: &str, enabled: bool)
    ensures
        cheat_table(final(settings).enabled_by_game@)
            == with_cheat_enabled(cheat_table(old(settings).enabled_by_game@), game_id@, cheat_id@, enabled),
        final(settings).show_cheat_badges == old(settings).show_cheat_badges,
{
    let ghost t = cheat_table(settings.enabled_by_game@);
    let n = settings.enabled_by_game.len();
    let mut k: usize = 0;
    let mut insert_at: usize = n;
    let mut seen_after = false;
    while k < n
        invariant
            n == settings.enabled_by_game@.len(),
            t == cheat_table(settings.enabled_by_game@),
            t == cheat_table(old(settings).enabled_by_game@),
            settings.show_cheat_badges == old(settings).show_cheat_badges,
            k <= n,
            forall|q: int| 0 <= q < k ==> #[trigger] t[q].0 != game_id@,
            seen_after ==> insert_at < k,
            seen_after ==> text_before(game_id@, t[insert_at as int].0),
            seen_after ==> forall|q: int| 0 <= q < insert_at ==> !text_before(game_id@, #[trigger] t[q].0),
            !seen_after ==> insert_at == n,
            !seen_after ==> forall|q: int| 0 <= q < k ==> !text_before(game_id@, #[trigger] t[q].0),
        decreases n - k,
    {
        let key = settings.enabled_by_game[k].0.as_str();
        assert(t[k as int].0 == key@);
        if text_equal(key, game_id) {
            proof { lemma_game_position(t, game_id@, k as int); }
            let (g, list) = settings.enabled_by_game.remove(k);
            let ghost mid = settings.enabled_by_game@;
            let updated = toggle_cheat_list(list, cheat_id, enabled);
            settings.enabled_by_game.insert(k, (g, updated));
            proof {
                assert(cheat_table(settings.enabled_by_game@) =~= t.update(k as int, (game_id@, toggled(t[k as int].1, cheat_id@, enabled))));
            }
            return;
        }
        if !seen_after && text_before_exec(game_id, key) {
            seen_after = true;
            insert_at = k;
        }
        k = k + 1;
    }
    proof {
        lemma_game_position(t, game_id@, n as int);
        lemma_game_insert_position(t, game_id@, insert_at as int);
    }
    let empty: Vec<String> = Vec::new();
    assert(texts(empty@) =~= Seq::<Seq<char>>::empty());
    let list = toggle_cheat_list(empty, cheat_id, enabled);
    let ghost before = settings.enabled_by_game@;
    settings.enabled_by_game.insert(insert_at, (game_id.to_owned(), list));
    assert(cheat_table(settings.enabled_by_game@) =~= t.insert(insert_at as int, (game_id@, toggled(seq![], cheat_id@, enabled))));
}

/// Mark each cached cheat enabled exactly when its id is among `enabled_ids`.
pub fn apply_enabled_cheats(cheats: Vec<CheatEntry>, enabled_ids: &Vec<String>) -> (r: Vec<CheatEntry>)
    ensures
        r@.len() == cheats@.len(),
        forall|i: int| 0 <= i < r@.len() ==> {
            &&& (#[trigger] r@[i]).id == cheats@[i].id
            &&& r@[i].game_id == cheats@[i].game_id
            &&& r@[i].name == cheats@[i].name
            &&& r@[i].code == cheats@[i].code
            &&& r@[i].source == cheats@[i].source
            &&& r@[i].kind == cheats@[i].kind
            &&& r@[i].enabled == texts(enabled_ids@).contains(cheats@[i].id@)
        },
{
    let ghost all = cheats@;
    let mut rest = cheats;
    let total = rest.len();
    let mut out: Vec<CheatEntry> = Vec::new();
    let mut i: usize = 0;
    assert(rest@ =~= all.subrange(0, all.len() as int));
    while rest.len() > 0
        invariant
            i + rest@.len() == all.len(),
            total == all.len(),
            rest@ == all.subrange(i as int, all.len() as int),
            out@.len() == i,
            forall|q: int| 0 <= q < i ==> {
                &&& (#[trigger] out@[q]).id == all[q].id
                &&& out@[q].game_id == all[q].game_id
                &&& out@[q].name == all[q].name
                &&& out@[q].code == all[q].code
                &&& out@[q].source == all[q].source
                &&& out@[q].kind == all[q].kind
                &&& out@[q].enabled == texts(enabled_ids@).contains(all[q].id@)
            },
        decreases rest@.len(),
    {
        let mut cheat = rest.remove(0);
        assert(cheat == all[i as int]);
        let mut enabled = false;
        let mut k: usize = 0;
        while k < enabled_ids.len()
            invariant
                k <= enabled_ids@.len(),
                enabled == (exists|q: int| 0 <= q < k && #[trigger] enabled_ids@[q]@ == cheat.id@),
            decreases enabled_ids@.len() - k,
        {
            if enabled_ids[k].eq(&cheat.id) {
                enabled = true;
            }
            k = k + 1;
        }
        proof {
            if enabled {
                let q = choose|q: int| 0 <= q < k && #[trigger] enabled_ids@[q]@ == cheat.id@;
                assert(texts(enabled_ids@)[q] == cheat.id@);
            } else {
                assert forall|q: int| 0 <= q < texts(enabled_ids@).len() implies texts(enabled_ids@)[q] != cheat.id@ by {
                    assert(texts(enabled_ids@)[q] == enabled_ids@[q]@);
                }
            }
        }
        cheat.enabled = enabled;
        out.push(cheat);
        assert(rest@ =~= all.subrange(i + 1, all.len() as int));
        i = i + 1;
    }
    out
}

/// Extensions of ROM image files, lower-case.
pub open spec fn rom_extensions() -> Set<Seq<char>> {
    set!["sfc"@, "smc"@, "swc"@, "fig"@]
}

/// The extension of a path's file name: what follows its last `.`, unless the name has no `.`
/// or only a leading one.
pub open spec fn extension(p: Seq<char>) -> Option<Seq<char>> {
    match file_name(p) {
        Some(name) => {
            let d = last_index(name, '.');
            if d <= 0 { None } else { Some(name.subrange(d + 1, name.len() as int)) }
        },
        None => None,
    }
}

/// Whether a path names a ROM image: its extension, ignoring ASCII case, is one of
/// `sfc`, `smc`, `swc` and `fig`.
pub fn is_rom_path(path: &str) -> (r: bool)
    ensures
        r == (extension(path@) matches Some(ext) && rom_extensions().contains(lower_seq(ext))),
{
    let name = match crate::paths::path_file_name(path) {
        Some(n) => n,
        None => return false,
    };
    let chars = chars_of(name.as_str());
    let d = match crate::paths::last_index_of(&chars, '.') {
        Some(d) => d,
        None => return false,
    };
    if d == 0 {
        return false;
    }
    let n = chars.len();
    assert(d < n);
    let mut ext: Vec<char> = Vec::new();
    let mut i: usize = d + 1;
    while i < chars.len()
        invariant
            d + 1 <= i <= chars@.len(),
            ext@ == lower_seq(chars@.subrange(d + 1, i as int)),
        decreases chars@.len() - i,
    {
        ext.push(to_lower(chars[i]));
        assert(lower_seq(chars@.subrange(d + 1, i + 1)) =~= lower_seq(chars@.subrange(d + 1, i as int)).push(ascii_lower(chars@[i as int])));
        i = i + 1;
    }
    let e = string_from_chars(&ext);
    let ghost listed = seq!["sfc"@, "smc"@, "swc"@, "fig"@];
    assert(rom_extensions() =~= listed.to_set()) by {
        assert forall|x: Seq<char>| rom_extensions().contains(x) <==> listed.contains(x) by {
            if x == "sfc"@ { assert(listed[0] == x); }
            if x == "smc"@ { assert(listed[1] == x); }
            if x == "swc"@ { assert(listed[2] == x); }
            if x == "fig"@ { assert(listed[3] == x); }
        }
    }
    let s = e.as_str();
    let hit = text_equal(s, "sfc") || text_equal(s, "smc") || text_equal(s, "swc") || text_equal(s, "fig");
    proof {
        if !hit {
            assert forall|q: int| 0 <= q < 4 implies listed[q] != e@ by {}
        }
    }
    hit
}

/// Whether two texts hold the same characters.

/// The name a mapper is listed under.
pub open spec fn mapper_name(m: Mapper) -> Seq<char> {
    match m {
        Mapper::LoRom => "LoRom"@,
        Mapper::HiRom => "HiRom"@,
    }
}

/// The name a region is listed under.
pub open spec fn region_name(r: Region) -> Seq<char> {
    match r {
        Region::Ntsc => "NTSC"@,
        Region::Pal => "PAL"@,
        Region::Unknown => "Unknown"@,
    }
}

/// The library record of a ROM the host loaded from `rom_path`, a file of `file_size_bytes`.
pub fn local_rom_info(cartridge: &Cartridge, rom_path: String, file_size_bytes: u64) -> (info: LocalRomInfo)
    ensures
        info.title == cartridge.header_view().title,
        info.game_id@ == spec_game_id(cartridge.header_view().title@),
        info.normalized_title@ == spec_normalize_title(cartridge.header_view().title@),
        info.rom_path == rom_path,
        info.mapper@ == mapper_name(cartridge.mapper_view()),
        match spec_detect(cartridge.header_view()) {
            Some(kind) => info.coprocessor matches Some(name) && name@ == kind.spec_name(),
            None => info.coprocessor is None,
        },
        info.region@ == region_name(cartridge.header_view().region),
        info.file_size_bytes == file_size_bytes,
{
    let title = cartridge.header().title.clone();
    let mapper = match cartridge.mapper() {
        Mapper::LoRom => "LoRom".to_owned(),
        Mapper::HiRom => "HiRom".to_owned(),
    };
    let region = match cartridge.header().region {
        Region::Ntsc => "NTSC".to_owned(),
        Region::Pal => "PAL".to_owned(),
        Region::Unknown => "Unknown".to_owned(),
    };
    let coprocessor = match cartridge.coprocessor_kind() {
        Some(kind) => Some(kind.name()),
        None => None,
    };
    LocalRomInfo {
        game_id: game_id_for_title(title.as_str()),
        normalized_title: normalize_title(title.as_str()),
        title,
        rom_path,
        mapper,
        coprocessor,
        region,
        file_size_bytes,
    }
}

/// The cheat family a libretro cheat file name names.
pub open spec fn spec_cheat_kind(stem: Seq<char>) -> Seq<char> {
    if contains_seq(stem, "Game Genie"@) {
        "Game Genie"@
    } else if contains_seq(stem, "Action Replay"@) {
        "Action Replay"@
    } else if contains_seq(stem, "Pro Action Replay"@) {
        "Pro Action Replay"@
    } else if contains_seq(stem, "Gold Finger"@) {
        "Gold Finger"@
    } else {
        "Unknown"@
    }
}

/// The cheat family a libretro cheat file name names.
pub fn cheat_kind_from_stem(stem: &str) -> (k: String)
    ensures
        k@ == spec_cheat_kind(stem@),
{
    let s = chars_of(stem);
    let kinds: [&str; 4] = ["Game Genie", "Action Replay", "Pro Action Replay", "Gold Finger"];
    if contains_chars(&s, &chars_of(kinds[0])) {
        kinds[0].to_owned()
    } else if contains_chars(&s, &chars_of(kinds[1])) {
        kinds[1].to_owned()
    } else if contains_chars(&s, &chars_of(kinds[2])) {
        kinds[2].to_owned()
    } else if contains_chars(&s, &chars_of(kinds[3])) {
        kinds[3].to_owned()
    } else {
        "Unknown".to_owned()
    }
}

/// `s` without `suffix` when it ends with it.
pub open spec fn drop_suffix(s: Seq<char>, suffix: Seq<char>) -> Seq<char> {
    if s.len() >= suffix.len() && s.subrange(s.len() - suffix.len(), s.len() as int) == suffix {
        s.subrange(0, s.len() - suffix.len())
    } else {
        s
    }
}

/// A cheat file name without its family and diff suffixes, removed in a fixed order.
pub open spec fn spec_strip_cheat_suffix(stem: Seq<char>) -> Seq<char> {
    drop_suffix(
        drop_suffix(
            drop_suffix(drop_suffix(drop_suffix(stem, " (Game Genie)"@), " (Action Replay)"@), " (Pro Action Replay)"@),
            " (Gold Finger)"@,
        ),
        " (diff)"@,
    )
}

fn drop_suffix_vec(s: Vec<char>, suffix: &str) -> (r: Vec<char>)
    ensures
        r@ == drop_suffix(s@, suffix@),
{
    let p = chars_of(suffix);
    if s.len() < p.len() {
        return s;
    }
    let start = s.len() - p.len();
    let mut k: usize = 0;
    while k < p.len()
        invariant
            k <= p@.len(),
            p@ == suffix@,
            start + p@.len() == s@.len(),
            s@.len() <= usize::MAX,
            forall|q: int| 0 <= q < k ==> s@[start + q] == p@[q],
        decreases p@.len() - k,
    {
        if s[start + k] != p[k] {
            assert(s@.subrange(start as int, s@.len() as int)[k as int] != suffix@[k as int]);
            return s;
        }
        k = k + 1;
    }
    assert(s@.subrange(start as int, s@.len() as int) =~= suffix@);
    let mut r: Vec<char> = Vec::new();
    let mut i: usize = 0;
    while i < start
        invariant
            i <= start,
            start <= s@.len(),
            r@ == s@.subrange(0, i as int),
        decreases start - i,
    {
        r.push(s[i]);
        i = i + 1;
    }
    r
}

/// A cheat file name without its family and diff suffixes.
pub fn strip_cheat_suffix(stem: &str) -> (s: String)
    ensures
        s@ == spec_strip_cheat_suffix(stem@),
{
    let mut t = chars_of(stem);
    t = drop_suffix_vec(t, " (Game Genie)");
    t = drop_suffix_vec(t, " (Action Replay)");
    t = drop_suffix_vec(t, " (Pro Action Replay)");
    t = drop_suffix_vec(t, " (Gold Finger)");
    t = drop_suffix_vec(t, " (diff)");
    string_from_chars(&t)
}

} // verus!
