//! Path operations of the standard library (`std::path::Path`), on
//! paths held as strings.
//!
//! What each operation returns is named by an uninterpreted function of
//! its arguments: the platform's path grammar is not restated here.

use vstd::prelude::*;
use std::path::Path;

verus! {

/// The view of an optional string.
pub open spec fn opt_str_view(o: Option<String>) -> Option<Seq<char>> {
    match o {
        Some(s) => Some(s@),
        None => None,
    }
}

/// What `Path::extension` gives for `path`.
pub uninterp spec fn spec_extension(path: Seq<char>) -> Option<Seq<char>>;

/// What `Path::file_stem` gives for `path`.
pub uninterp spec fn spec_file_stem(path: Seq<char>) -> Option<Seq<char>>;

/// What `Path::parent` gives for `path`.
pub uninterp spec fn spec_parent(path: Seq<char>) -> Option<Seq<char>>;

/// What `Path::file_name` gives for `path`.
pub uninterp spec fn spec_file_name(path: Seq<char>) -> Option<Seq<char>>;

/// What `Path::is_absolute` gives for `path`.
pub uninterp spec fn spec_is_absolute(path: Seq<char>) -> bool;

/// What `Path::join` gives for `base` and `part`.
pub uninterp spec fn spec_join(base: Seq<char>, part: Seq<char>) -> Seq<char>;

/// The text of each component that `Path::components` gives for `path`.
pub uninterp spec fn spec_components(path: Seq<char>) -> Seq<Seq<char>>;

/// The views of a sequence of strings.
pub open spec fn texts(v: Seq<String>) -> Seq<Seq<char>> {
    v.map_values(|s: String| s@)
}

/// Two paths are the same path when they have the same components, as
/// `Path`'s equality has it: `/a//x` and `/a/x`, or `/m/` and `/m`, are
/// one path.
pub open spec fn same_path(a: Seq<char>, b: Seq<char>) -> bool {
    spec_components(a) == spec_components(b)
}

/// Whether one of the paths in `s` is the same path as `x`.
pub open spec fn has_path(s: Seq<Seq<char>>, x: Seq<char>) -> bool {
    exists|j: int| 0 <= j < s.len() && #[trigger] same_path(s[j], x)
}

/// Two optional paths are both absent, or both present and the same path.
pub open spec fn same_opt_path(a: Option<Seq<char>>, b: Option<Seq<char>>) -> bool {
    match (a, b) {
        (Some(x), Some(y)) => same_path(x, y),
        (None, None) => true,
        _ => false,
    }
}

/// The view of an optional string reference.
pub open spec fn opt_ref_view(o: Option<&str>) -> Option<Seq<char>> {
    match o {
        Some(s) => Some(s@),
        None => None,
    }
}

/// No two of the paths in `s` are the same path.
pub open spec fn distinct_paths(s: Seq<Seq<char>>) -> bool {
    forall|i: int, j: int| 0 <= i < j < s.len() ==> !same_path(#[trigger] s[i], #[trigger] s[j])
}

/// The extension of the file name of `path` (`Path::extension`): what
/// `spec_extension` names for the path.
#[verifier::external_body]
pub(crate) fn path_extension(path: &str) -> (r: Option<String>)
    ensures
        opt_str_view(r) == spec_extension(path@),
{
    match Path::new(path).extension() {
        Some(e) => e.to_str().map(String::from),
        None => None,
    }
}

/// The file name of `path` without its extension (`Path::file_stem`):
/// what `spec_file_stem` names for the path.
#[verifier::external_body]
pub(crate) fn path_file_stem(path: &str) -> (r: Option<String>)
    ensures
        opt_str_view(r) == spec_file_stem(path@),
{
    match Path::new(path).file_stem() {
        Some(e) => e.to_str().map(String::from),
        None => None,
    }
}

/// The parent directory of `path` (`Path::parent`): what `spec_parent`
/// names for the path.
#[verifier::external_body]
pub(crate) fn path_parent(path: &str) -> (r: Option<String>)
    ensures
        opt_str_view(r) == spec_parent(path@),
{
    match Path::new(path).parent() {
        Some(p) => p.to_str().map(String::from),
        None => None,
    }
}

/// The last component of `path` (`Path::file_name`): what
/// `spec_file_name` names for the path.
#[verifier::external_body]
pub(crate) fn path_file_name(path: &str) -> (r: Option<String>)
    ensures
        opt_str_view(r) == spec_file_name(path@),
{
    match Path::new(path).file_name() {
        Some(n) => Some(n.to_string_lossy().into_owned()),
        None => None,
    }
}

/// Whether `path` is absolute (`Path::is_absolute`): what
/// `spec_is_absolute` names for the path.
#[verifier::external_body]
pub(crate) fn path_is_absolute(path: &str) -> (r: bool)
    ensures
        r == spec_is_absolute(path@),
{
    Path::new(path).is_absolute()
}

/// The components of `path` (`Path::components`), each as its text
/// (`Component::as_os_str`): what `spec_components` names for the path.
#[verifier::external_body]
pub(crate) fn path_components(path: &str) -> (r: Vec<String>)
    ensures
        texts(r@) == spec_components(path@),
{
    let mut r = Vec::new();
    for c in Path::new(path).components() {
        r.push(c.as_os_str().to_string_lossy().into_owned());
    }
    r
}

/// Whether two lists of strings are equal, string by string.
fn texts_equal(a: &Vec<String>, b: &Vec<String>) -> (r: bool)
    ensures
        r == (texts(a@) == texts(b@)),
{
    if a.len() != b.len() {
        proof {
            assert(texts(a@).len() != texts(b@).len());
        }
        return false;
    }
    let n = a.len();
    let mut i: usize = 0;
    while i < n
        invariant
            i <= n,
            n == a@.len(),
            n == b@.len(),
            forall|j: int| 0 <= j < i ==> a@[j]@ == b@[j]@,
        decreases n - i,
    {
        if a[i] != b[i] {
            proof {
                assert(texts(a@)[i as int] != texts(b@)[i as int]);
            }
            return false;
        }
        i = i + 1;
    }
    proof {
        assert(texts(a@) =~= texts(b@));
    }
    true
}

/// The components of a path, to compare it with others.
pub struct PathKey {
    parts: Vec<String>,
}

impl View for PathKey {
    type V = Seq<Seq<char>>;

    closed spec fn view(&self) -> Seq<Seq<char>> {
        texts(self.parts@)
    }
}

impl PathKey {
    /// The key of `path`: its components.
    pub fn of(path: &str) -> (r: PathKey)
        ensures
            r@ == spec_components(path@),
    {
        PathKey { parts: path_components(path) }
    }

    /// Whether two keys are equal, so that their paths are the same path.
    pub fn matches(&self, other: &PathKey) -> (r: bool)
        ensures
            r == (self@ == other@),
    {
        texts_equal(&self.parts, &other.parts)
    }
}

/// Whether `a` and `b` are the same path (`Path`'s `==`).
pub fn paths_equal(a: &str, b: &str) -> (r: bool)
    ensures
        r == same_path(a@, b@),
{
    PathKey::of(a).matches(&PathKey::of(b))
}

/// Whether two optional paths are both absent or the same path
/// (`Option<PathBuf>`'s `==`).
pub fn opt_paths_equal(a: Option<&str>, b: Option<&str>) -> (r: bool)
    ensures
        r == same_opt_path(opt_ref_view(a), opt_ref_view(b)),
{
    match (a, b) {
        (Some(x), Some(y)) => paths_equal(x, y),
        (None, None) => true,
        _ => false,
    }
}

/// `part` appended to `base` (`Path::join`): what `spec_join` names for
/// the two paths.
#[verifier::external_body]
pub(crate) fn path_join(base: &str, part: &str) -> (r: String)
    ensures
        r@ == spec_join(base@, part@),
{
    Path::new(base).join(part).to_string_lossy().into_owned()
}

} // verus!
