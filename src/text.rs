//! Splitting and trimming text, as route templates and paths need.
use vstd::prelude::*;

verus! {

/// Which characters a trim removes.
#[derive(Clone, Copy, Debug, PartialEq, Eq, Structural)]
pub enum Strip {
    /// Unicode white space.
    Space,
    /// `:`
    Colon,
    /// `/`
    Slash,
    /// Anything but `/`.
    NonSlash,
}

/// Unicode white space, the characters that `str::trim` removes.
pub open spec fn is_space(c: char) -> bool {
    c == '\t' || c == '\n' || c == '\u{0B}' || c == '\u{0C}' || c == '\r' || c == ' ' || c
        == '\u{85}' || c == '\u{A0}' || c == '\u{1680}' || ('\u{2000}' <= c && c <= '\u{200A}')
        || c == '\u{2028}' || c == '\u{2029}' || c == '\u{202F}' || c == '\u{205F}' || c
        == '\u{3000}'
}

/// A trim of kind `k` removes `c`.
pub open spec fn strips(k: Strip, c: char) -> bool {
    match k {
        Strip::Space => is_space(c),
        Strip::Colon => c == ':',
        Strip::Slash => c == '/',
        Strip::NonSlash => c != '/',
    }
}

/// Whether a trim of kind `k` removes `c`.
fn strips_exec(k: Strip, c: char) -> (r: bool)
    ensures
        r == strips(k, c),
{
    match k {
        Strip::Space => c == '\t' || c == '\n' || c == '\u{0B}' || c == '\u{0C}' || c == '\r' || c
            == ' ' || c == '\u{85}' || c == '\u{A0}' || c == '\u{1680}' || ('\u{2000}' <= c && c
            <= '\u{200A}') || c == '\u{2028}' || c == '\u{2029}' || c == '\u{202F}' || c
            == '\u{205F}' || c == '\u{3000}',
        Strip::Colon => c == ':',
        Strip::Slash => c == '/',
        Strip::NonSlash => c != '/',
    }
}

/// The first place at or after `i` whose character a trim of kind `k` keeps
/// (or the length).
pub open spec fn lead_end(s: Seq<char>, k: Strip, i: int) -> int
    decreases s.len() - i,
{
    if 0 <= i < s.len() && strips(k, s[i]) {
        lead_end(s, k, i + 1)
    } else {
        i
    }
}

/// The place just past the last character before `j`, and at or after
/// `lo`, that a trim of kind `k` keeps (or `lo`).
pub open spec fn trail_end(s: Seq<char>, k: Strip, lo: int, j: int) -> int
    decreases j - lo,
{
    if lo < j && j <= s.len() && strips(k, s[j - 1]) {
        trail_end(s, k, lo, j - 1)
    } else {
        j
    }
}

/// `s` without its leading characters of kind `k`.
pub open spec fn trim_start(s: Seq<char>, k: Strip) -> Seq<char> {
    s.subrange(lead_end(s, k, 0), s.len() as int)
}

/// `s` without its leading and trailing characters of kind `k`.
pub open spec fn trim(s: Seq<char>, k: Strip) -> Seq<char> {
    s.subrange(lead_end(s, k, 0), trail_end(s, k, lead_end(s, k, 0), s.len() as int))
}

proof fn lemma_lead_end_bounds(s: Seq<char>, k: Strip, i: int)
    requires
        0 <= i <= s.len(),
    ensures
        i <= lead_end(s, k, i) <= s.len(),
    decreases s.len() - i,
{
    if i < s.len() && strips(k, s[i]) {
        lemma_lead_end_bounds(s, k, i + 1);
    }
}

proof fn lemma_trail_end_bounds(s: Seq<char>, k: Strip, lo: int, j: int)
    requires
        0 <= lo <= j <= s.len(),
    ensures
        lo <= trail_end(s, k, lo, j) <= j,
    decreases j - lo,
{
    if lo < j && strips(k, s[j - 1]) {
        lemma_trail_end_bounds(s, k, lo, j - 1);
    }
}

/// The place past the leading characters of kind `k`.
pub fn lead_end_exec(s: &str, k: Strip) -> (r: usize)
    ensures
        r as int == lead_end(s@, k, 0),
        r <= s@.len(),
{
    let n = s.unicode_len();
    let mut i: usize = 0;
    while i < n && strips_exec(k, s.get_char(i))
        invariant
            0 <= i <= n,
            n == s@.len(),
            lead_end(s@, k, i as int) == lead_end(s@, k, 0),
        decreases n - i,
    {
        i = i + 1;
    }
    i
}

/// `s` without its leading characters of kind `k`.
pub fn trim_start_exec(s: &str, k: Strip) -> (r: String)
    ensures
        r@ == trim_start(s@, k),
{
    let a = lead_end_exec(s, k);
    String::from_str(s.substring_char(a, s.unicode_len()))
}

/// `s` without its leading and trailing characters of kind `k`.
pub fn trim_exec(s: &str, k: Strip) -> (r: String)
    ensures
        r@ == trim(s@, k),
{
    let a = lead_end_exec(s, k);
    let n = s.unicode_len();
    let mut j: usize = n;
    while j > a && strips_exec(k, s.get_char(j - 1))
        invariant
            a <= j <= n,
            n == s@.len(),
            trail_end(s@, k, a as int, j as int) == trail_end(s@, k, a as int, n as int),
        decreases j,
    {
        j = j - 1;
    }
    String::from_str(s.substring_char(a, j))
}

/// The pieces of `s` between the separators `sep`, read left to right: the
/// current piece began at `start` and the search goes on at `i`.
pub open spec fn pieces_from(s: Seq<char>, sep: Seq<char>, start: int, i: int) -> Seq<Seq<char>>
    decreases s.len() - i,
{
    if sep.len() == 0 || i < start || i + sep.len() > s.len() {
        seq![s.subrange(start, s.len() as int)]
    } else if s.subrange(i, i + sep.len()) == sep {
        seq![s.subrange(start, i)] + pieces_from(s, sep, i + sep.len(), i + sep.len())
    } else {
        pieces_from(s, sep, start, i + 1)
    }
}

/// The pieces of `s` between the separators `sep`, as `str::split` gives
/// them.
pub open spec fn split_on(s: Seq<char>, sep: Seq<char>) -> Seq<Seq<char>> {
    pieces_from(s, sep, 0, 0)
}

/// The texts of the strings.
pub open spec fn views(v: Seq<String>) -> Seq<Seq<char>> {
    v.map_values(|x: String| x@)
}

/// Whether `sep` stands in `s` at place `i`.
fn occurs_at(s: &str, sep: &str, i: usize) -> (r: bool)
    requires
        i + sep@.len() <= s@.len(),
    ensures
        r == (s@.subrange(i as int, i + sep@.len()) == sep@),
{
    let m = sep.unicode_len();
    let n = s.unicode_len();
    let mut k: usize = 0;
    while k < m
        invariant
            0 <= k <= m,
            n == s@.len(),
            m == sep@.len(),
            i + m <= s@.len(),
            forall|t: int| 0 <= t < k ==> s@[i + t] == sep@[t],
        decreases m - k,
    {
        if s.get_char(i + k) != sep.get_char(k) {
            assert(s@.subrange(i as int, i + sep@.len())[k as int] != sep@[k as int]);
            return false;
        }
        k = k + 1;
    }
    assert(s@.subrange(i as int, i + sep@.len()) =~= sep@);
    true
}

/// The pieces of `s` between the separators `sep`.
pub fn split_exec(s: &str, sep: &str) -> (r: Vec<String>)
    requires
        sep@.len() > 0,
    ensures
        views(r@) == split_on(s@, sep@),
{
    let n = s.unicode_len();
    let m = sep.unicode_len();
    let mut out: Vec<String> = Vec::new();
    let mut start: usize = 0;
    let mut i: usize = 0;
    while m <= n && i <= n - m
        invariant
            n == s@.len(),
            m == sep@.len(),
            m > 0,
            start <= i,
            i <= n,
            views(out@) + pieces_from(s@, sep@, start as int, i as int) == split_on(s@, sep@),
        decreases n - i,
    {
        if occurs_at(s, sep, i) {
            let piece = String::from_str(s.substring_char(start, i));
            let ghost before = out@;
            out.push(piece);
            assert(views(out@) =~= views(before).push(piece@));
            assert(views(out@) + pieces_from(s@, sep@, (i + m) as int, (i + m) as int) =~= views(
                before,
            ) + pieces_from(s@, sep@, start as int, i as int));
            i = i + m;
            start = i;
        } else {
            i = i + 1;
        }
    }
    let last = String::from_str(s.substring_char(start, n));
    let ghost before = out@;
    out.push(last);
    assert(views(out@) =~= views(before).push(last@));
    assert(views(before) + pieces_from(s@, sep@, start as int, i as int) =~= views(out@));
    out
}

} // verus!
