//! Paths as texts. The library holds a path as the text that is stored and shown; what the
//! parts of such a text are, the path functions of the standard library say, by the path syntax
//! of the platform that the crate is built for.

use vstd::prelude::*;

verus! {

/// `base` with `rel` adjoined.
pub uninterp spec fn path_join(base: Seq<char>, rel: Seq<char>) -> Seq<char>;

/// The path without its final component.
pub uninterp spec fn path_parent(p: Seq<char>) -> Option<Seq<char>>;

/// The final component of the path.
pub uninterp spec fn path_file_name(p: Seq<char>) -> Option<Seq<char>>;

/// The final component of the path without its extension.
pub uninterp spec fn path_file_stem(p: Seq<char>) -> Option<Seq<char>>;

/// The extension of the final component of the path.
pub uninterp spec fn path_extension(p: Seq<char>) -> Option<Seq<char>>;

/// Whether the path is independent of the current directory.
pub uninterp spec fn path_is_absolute(p: Seq<char>) -> bool;

/// Whether `base` is a prefix of the path, component by component.
pub uninterp spec fn path_begins_with(p: Seq<char>, base: Seq<char>) -> bool;

/// What remains of the path without the prefix `base`.
pub uninterp spec fn path_remainder(p: Seq<char>, base: Seq<char>) -> Option<Seq<char>>;

/// Whether two paths are the same, component by component.
pub uninterp spec fn path_same(a: Seq<char>, b: Seq<char>) -> bool;

/// The path as the standard library's debug format shows it.
pub uninterp spec fn path_debug(p: Seq<char>) -> Seq<char>;

/// Whether the character separates components on some platform.
pub open spec fn is_separator(c: char) -> bool {
    c == '/' || c == '\\'
}

/// Whether the text is a name that is one component on every platform. Dots alone are none: `.`
/// and `..` lead elsewhere.
pub open spec fn plain_name(s: Seq<char>) -> bool {
    &&& s.len() > 0
    &&& forall|i: int| 0 <= i < s.len() ==> !is_separator(#[trigger] s[i]) && s[i] != ':'
    &&& exists|i: int| 0 <= i < s.len() && #[trigger] s[i] != '.'
}

/// Whether the text is a path with neither a root nor a drive on any platform.
pub open spec fn plain_path(s: Seq<char>) -> bool {
    &&& s.len() > 0
    &&& !is_separator(s[0])
    &&& forall|i: int| 0 <= i < s.len() ==> #[trigger] s[i] != ':'
}

/// Whether the path is marked, for Windows, to be taken as it is written.
pub open spec fn is_verbatim(p: Seq<char>) -> bool {
    crate::text::starts_with(p, r"\\?\"@)
}

/// Whether the character is a letter that can name a drive.
pub open spec fn is_drive_letter(c: char) -> bool {
    'a' <= c <= 'z' || 'A' <= c <= 'Z'
}

/// Whether a path that is to be taken as it is written is more than a bare prefix: it begins at
/// the root of a drive, or it ends in a name.
pub open spec fn is_beyond_prefix(p: Seq<char>) -> bool {
    ||| p.len() >= 7 && is_drive_letter(p[4]) && p[5] == ':' && p[6] == '\\'
    ||| path_file_name(p) is Some
}

/// `Path::join` adjoins a path to another. An absolute path replaces what it is adjoined to. An
/// absolute path stays absolute, unless what is adjoined to it replaces it. A path with neither a
/// root nor a drive stays one when a name is adjoined to it. Two or three names adjoined to a path
/// one after the other give what the path of these names, adjoined at once, gives. The path
/// without the last of three names is the one to which it was adjoined, where the first path is
/// absolute and, if it is to be taken as it is written, more than a bare prefix. (A name adjoined
/// to a bare prefix can be read as part of it.)
#[verifier::external_body]
pub(crate) fn join_path(base: &str, rel: &str) -> (r: String)
    ensures
        r@ == path_join(base@, rel@),
        path_is_absolute(rel@) ==> r@ == rel@,
        path_is_absolute(base@) ==> path_is_absolute(r@) || r@ == rel@,
        plain_path(base@) && plain_name(rel@) ==> plain_path(r@) && !path_is_absolute(r@),
        forall|a: Seq<char>, b: Seq<char>|
            base@ == #[trigger] path_join(a, b) && plain_name(b) && plain_name(rel@) ==> r@
                == path_join(a, path_join(b, rel@)),
        forall|a: Seq<char>, b: Seq<char>, c: Seq<char>|
            base@ == #[trigger] path_join(path_join(a, b), c) && plain_name(b) && plain_name(c)
                && plain_name(rel@) ==> r@ == path_join(a, path_join(path_join(b, c), rel@)),
        forall|a: Seq<char>, b: Seq<char>, c: Seq<char>|
            base@ == #[trigger] path_join(path_join(a, b), c) && plain_name(b) && plain_name(c)
                && plain_name(rel@) && path_is_absolute(a) && (is_verbatim(a)
                ==> is_beyond_prefix(a)) ==> path_parent(r@) == Some(base@),
{
    std::path::Path::new(base).join(rel).to_string_lossy().into_owned()
}

/// `Path::parent` gives the path without its final component, if there is one.
#[verifier::external_body]
pub(crate) fn parent_of(p: &str) -> (r: Option<String>)
    ensures
        crate::text::opt_text(r) == path_parent(p@),
{
    std::path::Path::new(p).parent().map(|q| q.to_string_lossy().into_owned())
}

/// `Path::file_name` gives the final component of the path, if there is one.
#[verifier::external_body]
pub(crate) fn file_name_of(p: &str) -> (r: Option<String>)
    ensures
        crate::text::opt_text(r) == path_file_name(p@),
{
    std::path::Path::new(p).file_name().map(|q| q.to_string_lossy().into_owned())
}

/// `Path::file_stem` gives the final component without its extension, if there is one.
#[verifier::external_body]
pub(crate) fn file_stem_of(p: &str) -> (r: Option<String>)
    ensures
        crate::text::opt_text(r) == path_file_stem(p@),
        path_file_name(p@) is None ==> r is None,
{
    std::path::Path::new(p).file_stem().map(|q| q.to_string_lossy().into_owned())
}

/// `Path::extension` gives the extension of the final component, if it has one.
#[verifier::external_body]
pub(crate) fn extension_of(p: &str) -> (r: Option<String>)
    ensures
        crate::text::opt_text(r) == path_extension(p@),
{
    std::path::Path::new(p).extension().map(|q| q.to_string_lossy().into_owned())
}

/// `Path::is_absolute` tells whether the path is independent of the current directory.
#[verifier::external_body]
pub(crate) fn is_absolute(p: &str) -> (r: bool)
    ensures
        r == path_is_absolute(p@),
{
    std::path::Path::new(p).is_absolute()
}

/// `Path::starts_with` tells whether one path is a prefix of another, by whole components.
#[verifier::external_body]
pub(crate) fn begins_with(p: &str, base: &str) -> (r: bool)
    ensures
        r == path_begins_with(p@, base@),
{
    std::path::Path::new(p).starts_with(base)
}

/// `Path` compares paths by their components.
#[verifier::external_body]
pub(crate) fn same_path(a: &str, b: &str) -> (r: bool)
    ensures
        r == path_same(a@, b@),
{
    std::path::Path::new(a) == std::path::Path::new(b)
}

/// Whether the text begins as a path with a root or on a drive does: with a separator, or with a
/// letter and a colon.
pub open spec fn begins_at_root_or_drive(s: Seq<char>) -> bool {
    ||| s.len() >= 1 && is_separator(s[0])
    ||| s.len() >= 2 && is_drive_letter(s[0]) && s[1] == ':'
}

/// Whether a component of the text, between backslashes, that begins at `i` is `.` or `..`.
pub open spec fn dots_at(s: Seq<char>, i: int) -> bool {
    &&& i == 0 || s[i - 1] == '\\'
    &&& s[i] == '.'
    &&& {
        ||| i + 1 == s.len() || s[i + 1] == '\\'
        ||| s[i + 1] == '.' && (i + 2 == s.len() || s[i + 2] == '\\')
    }
}

/// Whether the text holds no slash and no component that is `.` or `..`.
pub open spec fn holds_names_only(s: Seq<char>) -> bool {
    forall|i: int| 0 <= i < s.len() ==> #[trigger] s[i] != '/' && !dots_at(s, i)
}

/// Whether two backslashes stand in a row at `i`.
pub open spec fn empty_part_at(s: Seq<char>, i: int) -> bool {
    s[i] == '\\' && s[i + 1] == '\\'
}

/// Whether the path is the mark of a device without the device.
pub open spec fn is_device_mark(p: Seq<char>) -> bool {
    p.len() == 4 && is_separator(p[0]) && is_separator(p[1]) && p[2] == '.' && is_separator(p[3])
}

/// Whether a path that is to be taken as it is written holds names only, none of them empty,
/// beyond its prefix.
pub open spec fn is_clean_verbatim(p: Seq<char>) -> bool {
    &&& holds_names_only(p)
    &&& forall|i: int| 3 <= i < p.len() - 1 ==> !#[trigger] empty_part_at(p, i)
    &&& is_beyond_prefix(p)
}

/// Whether `rest`, adjoined to `base`, is taken as what follows `base`: `base` is absolute and no
/// bare mark of a device, `rest` is read neither as a path from a root nor as one on a drive, and
/// both hold names only where `base` is to be taken as it is written.
pub open spec fn adjoins(base: Seq<char>, rest: Seq<char>) -> bool {
    &&& path_is_absolute(base)
    &&& !is_device_mark(base)
    &&& !begins_at_root_or_drive(rest)
    &&& is_verbatim(base) ==> is_clean_verbatim(base) && holds_names_only(rest)
}

/// `Path::strip_prefix` gives what follows a prefix of the path. It fails where `base` is no
/// prefix of the path. Adjoined to the prefix, what follows yields the path, and it is not
/// absolute, where it [`adjoins`]. Nothing of the kind is said elsewhere: `PathBuf::push` lets a
/// path on a drive replace what it is adjoined to, normalizes a path that is to be taken as it is
/// written when something is adjoined to it, and puts a separator behind a bare prefix, after which
/// the prefix can be read as another.
#[verifier::external_body]
pub(crate) fn remainder_of(p: &str, base: &str) -> (r: Option<String>)
    ensures
        crate::text::opt_text(r) == path_remainder(p@, base@),
        r is Some <==> path_begins_with(p@, base@),
        r is Some && adjoins(base@, r->0@) ==> path_same(path_join(base@, r->0@), p@)
            && !path_is_absolute(r->0@),
{
    std::path::Path::new(p).strip_prefix(base).ok().map(|q| q.to_string_lossy().into_owned())
}

/// The debug format of `Path` quotes the path and escapes what needs it.
#[verifier::external_body]
pub(crate) fn debug_form(p: &str) -> (r: String)
    ensures
        r@ == path_debug(p@),
{
    format!("{:?}", std::path::Path::new(p))
}

} // verus!
