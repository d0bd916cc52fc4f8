//! File-system paths, held as strings, and the directories the platform
//! reports.

use vstd::prelude::*;
use crate::text::is_prefix_of;

verus! {

/// A path separator on some platform (`/` everywhere, `\` on Windows).
pub open spec fn is_separator(c: char) -> bool {
    c == '/' || c == '\\'
}

/// A path that `Path::join` appends to its base on every platform: not empty,
/// not starting at a root, and with no drive or device prefix.
pub open spec fn is_relative_child(c: Seq<char>) -> bool {
    &&& c.len() > 0
    &&& !is_separator(c[0])
    &&& !c.contains(':')
}

/// A single plain file or directory name: no separator, no drive colon, and
/// neither `.` nor `..`.
pub open spec fn is_plain_name(c: Seq<char>) -> bool {
    &&& c.len() > 0
    &&& !c.contains('/')
    &&& !c.contains('\\')
    &&& !c.contains(':')
    &&& c != seq!['.']
    &&& c != seq!['.', '.']
}

/// Position `i` of `c` starts a component that is `.` or `..` (components
/// being separated by `\`).
pub open spec fn is_dot_component_at(c: Seq<char>, i: int) -> bool {
    &&& 0 <= i < c.len()
    &&& (i == 0 || c[i - 1] == '\\')
    &&& c[i] == '.'
    &&& (i + 1 == c.len() || c[i + 1] == '\\' || (c[i + 1] == '.' && (i + 2 == c.len() || c[i
        + 2] == '\\')))
}

/// Position `i` of `c` starts an empty component: two `\\` in a row.
pub open spec fn is_double_separator_at(c: Seq<char>, i: int) -> bool {
    0 <= i < c.len() - 1 && c[i] == '\\' && c[i + 1] == '\\'
}

/// Plain names joined by single `\`: no `/`, no drive colon, no empty
/// component, and no component that is `.` or `..`.
pub open spec fn is_plain_path(c: Seq<char>) -> bool {
    &&& c.len() > 0
    &&& !c.contains('/')
    &&& !c.contains(':')
    &&& c[0] != '\\'
    &&& c.last() != '\\'
    &&& forall|i: int| !#[trigger] is_double_separator_at(c, i)
    &&& forall|i: int| !#[trigger] is_dot_component_at(c, i)
}

/// A Windows verbatim path (`\\?\...`), which `Path::join` normalizes.
pub open spec fn has_verbatim_prefix(b: Seq<char>) -> bool {
    is_prefix_of(seq!['\\', '\\', '?', '\\'], b)
}

/// The local data directory, or `C:\\ProgramData` when the platform reports
/// none.
pub open spec fn data_dir_base(base: Option<Seq<char>>) -> Seq<char> {
    match base {
        Some(b) => b,
        None => "C:\\ProgramData"@,
    }
}

/// `s` ends with `suffix`.
pub open spec fn is_suffix_of(suffix: Seq<char>, s: Seq<char>) -> bool {
    suffix.len() <= s.len() && s.skip(s.len() - suffix.len()) == suffix
}

/// A bare drive such as `C:`, after which Windows adds no separator.
pub open spec fn is_bare_drive(b: Seq<char>) -> bool {
    b.len() == 2 && b[1] == ':'
}

/// A base after which `Path::join` puts a separator before a relative child:
/// not empty, not ending in a separator, not a bare drive and not a verbatim
/// Windows path.
pub open spec fn takes_separator(b: Seq<char>) -> bool {
    &&& b.len() > 0
    &&& !is_separator(b.last())
    &&& !is_bare_drive(b)
    &&& !has_verbatim_prefix(b)
}

/// `r` is `base`, one path separator, then `child`.
pub open spec fn is_joined(r: Seq<char>, base: Seq<char>, child: Seq<char>) -> bool {
    exists|s: char| #[trigger] is_separator(s) && r == base + seq![s] + child
}

/// `r` is `base`, a separator, `mid`, a separator, then `last`.
pub open spec fn is_joined_twice(
    r: Seq<char>,
    base: Seq<char>,
    mid: Seq<char>,
    last: Seq<char>,
) -> bool {
    exists|s1: char, s2: char|
        #![trigger is_separator(s1), is_separator(s2)]
        is_separator(s1) && is_separator(s2) && r == base + seq![s1] + mid + seq![s2] + last
}

/// Calls `Path::join` and takes the result as a string (both arguments are
/// UTF-8, so nothing is lost). Claimed, from the documentation of `Path::join`
/// and `PathBuf::push` (a relative path extends the base, `/tmp` and
/// `file.bk` giving `/tmp/file.bk`; a verbatim base has `.` and `..` removed):
/// a single plain name, or plain names joined by `\`, end the result whatever
/// the base; a relative child ends the result unless the base is verbatim;
/// and after a base that is not empty, does not end in a separator, is not a
/// bare drive and is not verbatim, the result is the base, one separator and
/// the child. Which separator (`\` on Windows, `/` elsewhere) the platform
/// decides, so that is left open; so is the result for an absolute or
/// prefixed child, which replaces the base, and the separator after a bare
/// drive or a verbatim base.
#[verifier::external_body]
pub(crate) fn join_path(base: &str, child: &str) -> (r: String)
    ensures
        is_plain_name(child@) ==> is_suffix_of(child@, r@),
        is_plain_path(child@) ==> is_suffix_of(child@, r@),
        is_relative_child(child@) && !has_verbatim_prefix(base@) ==> is_suffix_of(child@, r@),
        is_relative_child(child@) && takes_separator(base@) ==> is_joined(r@, base@, child@),
{
    std::path::Path::new(base).join(child).to_string_lossy().into_owned()
}

/// Calls `dirs::data_local_dir`, taking the path as a string. The answer
/// comes from the operating system and the environment, so nothing is
/// claimed of it.
#[verifier::external_body]
pub(crate) fn data_local_dir() -> (r: Option<String>) {
    match dirs::data_local_dir() {
        Some(p) => Some(p.to_string_lossy().into_owned()),
        None => None,
    }
}

/// Calls `dirs::document_dir`, taking the path as a string. The answer comes
/// from the operating system and the environment, so nothing is claimed of
/// it.
#[verifier::external_body]
pub(crate) fn document_dir() -> (r: Option<String>) {
    match dirs::document_dir() {
        Some(p) => Some(p.to_string_lossy().into_owned()),
        None => None,
    }
}

/// Joining onto a base of at least four characters that is not a verbatim
/// path gives a path that is not verbatim either.
pub proof fn lemma_join_keeps_non_verbatim(r: Seq<char>, base: Seq<char>, child: Seq<char>)
    requires
        is_joined(r, base, child),
        base.len() >= 4,
        !has_verbatim_prefix(base),
    ensures
        !has_verbatim_prefix(r),
{
    let s = choose|s: char| #[trigger] is_separator(s) && r == base + seq![s] + child;
    assert(r.take(4) =~= base.take(4));
}

/// A path that is not verbatim and ends with at least three characters, the
/// last of them no separator, takes a separator when joined onto.
pub proof fn lemma_suffix_takes_separator(r: Seq<char>, suffix: Seq<char>)
    requires
        is_suffix_of(suffix, r),
        suffix.len() >= 3,
        !is_separator(suffix.last()),
        !has_verbatim_prefix(r),
    ensures
        takes_separator(r),
{
    assert(r.last() == r.skip(r.len() - suffix.len())[suffix.len() - 1]);
}

/// A child that ends in no separator, joined onto a base of at least four
/// characters that is not verbatim, gives a path that takes a separator.
pub proof fn lemma_joined_takes_separator(r: Seq<char>, base: Seq<char>, child: Seq<char>)
    requires
        is_joined(r, base, child),
        base.len() >= 4,
        !has_verbatim_prefix(base),
        child.len() > 0,
        !is_separator(child.last()),
    ensures
        takes_separator(r),
{
    lemma_join_keeps_non_verbatim(r, base, child);
    let s = choose|s: char| #[trigger] is_separator(s) && r == base + seq![s] + child;
    assert(r.last() == child.last());
}

/// Two joins in a row: `r` is `base`, a separator, `mid`, a separator and
/// `last`.
pub proof fn lemma_joined_twice(
    r: Seq<char>,
    m: Seq<char>,
    base: Seq<char>,
    mid: Seq<char>,
    last: Seq<char>,
)
    requires
        is_joined(m, base, mid),
        is_joined(r, m, last),
    ensures
        is_joined_twice(r, base, mid, last),
{
    let s1 = choose|s: char| #[trigger] is_separator(s) && m == base + seq![s] + mid;
    let s2 = choose|s: char| #[trigger] is_separator(s) && r == m + seq![s] + last;
    assert(r =~= base + seq![s1] + mid + seq![s2] + last);
    assert(is_separator(s1) && is_separator(s2));
}

} // verus!
