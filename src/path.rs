//! Paths as character sequences, joined by the rules of the target platform.
use vstd::prelude::*;

verus! {

/// The operating-system family whose conventions the resolution follows.
#[derive(Clone, Copy, Debug, PartialEq, Eq, Structural)]
pub enum Platform {
    /// Linux and other Unix systems without a special rule.
    Linux,
    /// The Apple desktop system (`Library/Caches`).
    MacOs,
    /// A browser runtime where any path may be created.
    Emscripten,
    /// A Unix system other than Linux, macOS and Emscripten.
    OtherUnix,
    /// The Windows family (environment-variable driven locations).
    Windows,
    /// The Redox operating system.
    Redox,
    /// A platform with no known cache conventions.
    Unknown,
}

/// Whether `c` separates path components on `p`.
pub open spec fn is_separator(p: Platform, c: char) -> bool {
    c == '/' || (p == Platform::Windows && c == '\\')
}

/// The separator inserted between two joined components.
pub open spec fn separator(p: Platform) -> char {
    if p == Platform::Windows { '\\' } else { '/' }
}

/// Whether joining `s` onto another path replaces that path entirely: it
/// starts at a root, or, on Windows, names a drive (`C:`).
pub open spec fn is_absolute(p: Platform, s: Seq<char>) -> bool {
    ||| (s.len() > 0 && is_separator(p, s[0]))
    ||| (p == Platform::Windows && s.len() >= 2 && s[1] == ':')
}

/// `rel` appended to `base`: `rel` itself when it is absolute or `base` is
/// empty, otherwise the two with exactly one separator added when `base` does
/// not already end in one.
///
/// On Windows a path that starts at a root without a drive (`\x`) or that
/// names a drive without a root (`C:x`) counts as absolute here, so it replaces
/// `base` entirely; `std::path::Path::join` would keep the drive of `base` in
/// the first case.
pub open spec fn join(p: Platform, base: Seq<char>, rel: Seq<char>) -> Seq<char> {
    if is_absolute(p, rel) || base.len() == 0 {
        rel
    } else if is_separator(p, base.last()) {
        base + rel
    } else {
        base + seq![separator(p)] + rel
    }
}

/// Joining onto an absolute path gives an absolute path.
pub proof fn lemma_join_keeps_absolute(p: Platform, base: Seq<char>, rel: Seq<char>)
    requires
        is_absolute(p, base),
    ensures
        is_absolute(p, join(p, base, rel)),
{
    let j = join(p, base, rel);
    if !is_absolute(p, rel) {
        assert(j[0] == base[0]);
        if base.len() >= 2 {
            assert(j[1] == base[1]);
        }
    }
}

/// Joining a relative path gives a path that ends with it.
pub proof fn lemma_join_ends_with(p: Platform, base: Seq<char>, rel: Seq<char>)
    requires
        !is_absolute(p, rel),
    ensures
        join(p, base, rel).len() >= rel.len(),
        join(p, base, rel).subrange(join(p, base, rel).len() - rel.len(), join(p, base, rel).len() as int) == rel,
{
    let j = join(p, base, rel);
    assert(j.subrange(j.len() - rel.len(), j.len() as int) =~= rel);
}

/// Whether `c` separates path components on `p`.
pub fn separator_char(p: Platform, c: char) -> (r: bool)
    ensures
        r == is_separator(p, c),
{
    c == '/' || (matches!(p, Platform::Windows) && c == '\\')
}

/// Whether `s` is absolute on `p` (see `is_absolute`).
pub fn path_is_absolute(p: Platform, s: &str) -> (r: bool)
    ensures
        r == is_absolute(p, s@),
{
    let n = s.unicode_len();
    if n > 0 && separator_char(p, s.get_char(0)) {
        return true;
    }
    matches!(p, Platform::Windows) && n >= 2 && s.get_char(1) == ':'
}

/// Joins `rel` onto `base` by the rules of `p`.
pub fn join_path(p: Platform, base: &str, rel: &str) -> (r: String)
    ensures
        r@ == join(p, base@, rel@),
{
    let n = base.unicode_len();
    if path_is_absolute(p, rel) || n == 0 {
        return rel.to_string();
    }
    let mut out = base.to_string();
    if !separator_char(p, base.get_char(n - 1)) {
        if matches!(p, Platform::Windows) {
            out.append("\\");
        } else {
            out.append("/");
        }
    }
    out.append(rel);
    proof {
        reveal_strlit("\\");
        reveal_strlit("/");
    }
    out
}

} // verus!
