//! Music library roots and audio file recognition, including SMB/UNC
//! network paths.
//!
//! Walking directories is input/output and is done by the caller; this
//! module decides what each directory entry means for a scan.

use vstd::prelude::*;
use crate::paths::{
    distinct_paths, has_path, opt_str_view, path_extension, path_file_stem, same_path,
    spec_components, spec_extension, spec_file_stem, PathKey,
};
use crate::text::{chars_eq, lowercase_chars, lowercase_spec, str_chars};

verus! {

broadcast use vstd::string::group_string_axioms;

/// Errors that can occur during library operations.
#[derive(Debug)]
pub enum LibraryError {
    /// An input/output failure, with the system's message.
    Io(String),
    /// The path does not exist.
    NotFound(String),
    /// The path cannot be read.
    AccessDenied(String),
}

impl LibraryError {
    /// The error's message.
    pub fn message(&self) -> (r: String)
        ensures
            r@ == match self {
                LibraryError::Io(s) => "IO error: "@ + s@,
                LibraryError::NotFound(s) => "Path not found: "@ + s@,
                LibraryError::AccessDenied(s) => "Access denied: "@ + s@,
            },
    {
        match self {
            LibraryError::Io(s) => crate::text::prefixed("IO error: ", s.as_str()),
            LibraryError::NotFound(s) => crate::text::prefixed("Path not found: ", s.as_str()),
            LibraryError::AccessDenied(s) => crate::text::prefixed("Access denied: ", s.as_str()),
        }
    }
}

/// Supported audio file extensions (lowercase, without the dot).
pub open spec fn audio_extensions() -> Seq<Seq<char>> {
    seq![
        "mp3"@,
        "flac"@,
        "ogg"@,
        "wav"@,
        "m4a"@,
        "aac"@,
        "opus"@,
        "wma"@,
        "aiff"@,
        "alac"@,
    ]
}

/// The supported extensions as character vectors.
fn audio_extension_chars() -> (r: Vec<Vec<char>>)
    ensures
        r@.map_values(|v: Vec<char>| v@) == audio_extensions(),
{
    let r = vec![
        str_chars("mp3"),
        str_chars("flac"),
        str_chars("ogg"),
        str_chars("wav"),
        str_chars("m4a"),
        str_chars("aac"),
        str_chars("opus"),
        str_chars("wma"),
        str_chars("aiff"),
        str_chars("alac"),
    ];
    assert(r@.map_values(|v: Vec<char>| v@) =~= audio_extensions());
    r
}

/// `path` has a supported audio extension, in any case.
pub open spec fn is_audio_path(path: Seq<char>) -> bool {
    match spec_extension(path) {
        Some(e) => audio_extensions().contains(lowercase_spec(e)),
        None => false,
    }
}

/// A path is an audio file exactly when it has an extension that,
/// lowercased, is `mp3`, `flac`, `ogg`, `wav`, `m4a`, `aac`, `opus`,
/// `wma`, `aiff` or `alac`.
pub proof fn law_audio_extensions(path: Seq<char>)
    ensures
        is_audio_path(path) <==> (spec_extension(path) is Some && {
            let l = lowercase_spec(spec_extension(path)->0);
            l == "mp3"@ || l == "flac"@ || l == "ogg"@ || l == "wav"@ || l == "m4a"@ || l == "aac"@
                || l == "opus"@ || l == "wma"@ || l == "aiff"@ || l == "alac"@
        }),
{
    let a = audio_extensions();
    assert(a[0] == "mp3"@ && a[1] == "flac"@ && a[2] == "ogg"@ && a[3] == "wav"@ && a[4] == "m4a"@
        && a[5] == "aac"@ && a[6] == "opus"@ && a[7] == "wma"@ && a[8] == "aiff"@ && a[9]
        == "alac"@);
    if let Some(e) = spec_extension(path) {
        let l = lowercase_spec(e);
        if a.contains(l) {
            let k = choose|k: int| 0 <= k < a.len() && a[k] == l;
            assert(0 <= k < 10);
        }
    }
}

/// Whether `w` is one of `list`.
fn contains_chars(list: &Vec<Vec<char>>, w: &Vec<char>) -> (r: bool)
    ensures
        r == list@.map_values(|v: Vec<char>| v@).contains(w@),
{
    let ghost ls = list@.map_values(|v: Vec<char>| v@);
    let n = list.len();
    let mut i: usize = 0;
    while i < n
        invariant
            i <= n,
            n == list@.len(),
            ls == list@.map_values(|v: Vec<char>| v@),
            forall|j: int| 0 <= j < i ==> ls[j] != w@,
        decreases n - i,
    {
        if chars_eq(&list[i], w) {
            assert(ls[i as int] == w@);
            return true;
        }
        i = i + 1;
    }
    proof {
        if ls.contains(w@) {
            let k = choose|k: int| 0 <= k < ls.len() && ls[k] == w@;
            assert(ls[k] != w@);
        }
    }
    false
}

/// Whether a path names a file with a supported audio extension.
pub fn is_audio_file(path: &str) -> (r: bool)
    ensures
        r == is_audio_path(path@),
{
    match path_extension(path) {
        Some(e) => {
            let ev = str_chars(e.as_str());
            let lower = lowercase_chars(&ev);
            is_audio_extension(&lower)
        },
        None => false,
    }
}

/// Whether a lowercase extension is one of the supported audio
/// extensions.
pub fn is_audio_extension(ext: &Vec<char>) -> (r: bool)
    ensures
        r == audio_extensions().contains(ext@),
{
    let exts = audio_extension_chars();
    contains_chars(&exts, ext)
}

/// `path` starts with `\\` or `//`.
pub open spec fn is_network_path_spec(path: Seq<char>) -> bool {
    path.len() >= 2 && ((path[0] == '\\' && path[1] == '\\') || (path[0] == '/' && path[1]
        == '/'))
}

/// Checks if a path is a network/SMB path (`\\server\share` or
/// `//server/share`).
pub fn is_network_path(path: &str) -> (r: bool)
    ensures
        r == is_network_path_spec(path@),
{
    let v = str_chars(path);
    v.len() >= 2 && ((v[0] == '\\' && v[1] == '\\') || (v[0] == '/' && v[1] == '/'))
}

// ---------------------------------------------------------------------
// Cover art
// ---------------------------------------------------------------------

/// Image extensions cover art may have (lowercase).
pub open spec fn image_extensions() -> Seq<Seq<char>> {
    seq!["jpg"@, "jpeg"@, "png"@, "bmp"@, "gif"@]
}

/// File names (without extension, lowercase) that mark cover art.
pub open spec fn art_names() -> Seq<Seq<char>> {
    seq!["cover"@, "folder"@, "album"@, "front"@, "art"@, "albumart"@, "album_art"@]
}

/// `path` names an image: it has a stem and an image extension, in any
/// case.
pub open spec fn is_image_path(path: Seq<char>) -> bool {
    &&& spec_file_stem(path) is Some
    &&& spec_extension(path) matches Some(e) && image_extensions().contains(lowercase_spec(e))
}

/// `path` names an image whose name marks it as cover art.
pub open spec fn is_cover_path(path: Seq<char>) -> bool {
    is_image_path(path) && art_names().contains(lowercase_spec(spec_file_stem(path)->0))
}

/// The cover art among the files of a track's directory, in listing
/// order: the first image named like cover art, else the first image.
pub open spec fn cover_choice(files: Seq<Seq<char>>) -> Option<Seq<char>> {
    if exists|i: int| 0 <= i < files.len() && is_cover_path(#[trigger] files[i]) {
        let i = choose|i: int|
            0 <= i < files.len() && is_cover_path(#[trigger] files[i]) && forall|j: int|
                0 <= j < i ==> !is_cover_path(#[trigger] files[j]);
        Some(files[i])
    } else if exists|i: int| 0 <= i < files.len() && is_image_path(#[trigger] files[i]) {
        let i = choose|i: int|
            0 <= i < files.len() && is_image_path(#[trigger] files[i]) && forall|j: int|
                0 <= j < i ==> !is_image_path(#[trigger] files[j]);
        Some(files[i])
    } else {
        None
    }
}

/// An image is cover art exactly when its stem, lowercased, is `cover`,
/// `folder`, `album`, `front`, `art`, `albumart` or `album_art`; and
/// a path is an image exactly when it has a stem and its extension,
/// lowercased, is `jpg`, `jpeg`, `png`, `bmp` or `gif`.
pub proof fn law_cover_art_names(path: Seq<char>)
    ensures
        is_image_path(path) <==> (spec_file_stem(path) is Some && spec_extension(path) is Some && {
            let l = lowercase_spec(spec_extension(path)->0);
            l == "jpg"@ || l == "jpeg"@ || l == "png"@ || l == "bmp"@ || l == "gif"@
        }),
        is_image_path(path) ==> (is_cover_path(path) <==> {
            let n = lowercase_spec(spec_file_stem(path)->0);
            n == "cover"@ || n == "folder"@ || n == "album"@ || n == "front"@ || n == "art"@ || n
                == "albumart"@ || n == "album_art"@
        }),
{
    let exts = image_extensions();
    let names = art_names();
    assert(exts[0] == "jpg"@ && exts[1] == "jpeg"@ && exts[2] == "png"@ && exts[3] == "bmp"@
        && exts[4] == "gif"@);
    assert(names[0] == "cover"@ && names[1] == "folder"@ && names[2] == "album"@ && names[3]
        == "front"@ && names[4] == "art"@ && names[5] == "albumart"@ && names[6] == "album_art"@);
    if let Some(e) = spec_extension(path) {
        let l = lowercase_spec(e);
        if exts.contains(l) {
            let k = choose|k: int| 0 <= k < exts.len() && exts[k] == l;
            assert(k == 0 || k == 1 || k == 2 || k == 3 || k == 4);
        }
    }
    if let Some(st) = spec_file_stem(path) {
        let n = lowercase_spec(st);
        if names.contains(n) {
            let k = choose|k: int| 0 <= k < names.len() && names[k] == n;
            assert(k == 0 || k == 1 || k == 2 || k == 3 || k == 4 || k == 5 || k == 6);
        }
    }
}

/// The cover art chosen among a directory's files: when some file is an
/// image named like cover art, the choice is such a file and no earlier
/// file is one; otherwise, when some file is an image, it is the first
/// image; with no image there is none.
pub proof fn law_cover_choice(files: Seq<Seq<char>>)
    ensures
        (exists|i: int| 0 <= i < files.len() && is_cover_path(#[trigger] files[i])) ==> exists|
            i: int,
        |
            0 <= i < files.len() && cover_choice(files) == Some(#[trigger] files[i]) && is_cover_path(
                files[i],
            ) && forall|j: int| 0 <= j < i ==> !is_cover_path(#[trigger] files[j]),
        (forall|i: int| 0 <= i < files.len() ==> !is_cover_path(#[trigger] files[i])) && (exists|
            i: int,
        | 0 <= i < files.len() && is_image_path(#[trigger] files[i])) ==> exists|i: int|
            0 <= i < files.len() && cover_choice(files) == Some(#[trigger] files[i]) && is_image_path(
                files[i],
            ) && forall|j: int| 0 <= j < i ==> !is_image_path(#[trigger] files[j]),
        (forall|i: int| 0 <= i < files.len() ==> !is_image_path(#[trigger] files[i]))
            ==> cover_choice(files) is None,
{
    if exists|i: int| 0 <= i < files.len() && is_cover_path(#[trigger] files[i]) {
        let i0 = choose|i: int| 0 <= i < files.len() && is_cover_path(#[trigger] files[i]);
        lemma_first_where_cover(files, i0);
    } else if exists|i: int| 0 <= i < files.len() && is_image_path(#[trigger] files[i]) {
        let i0 = choose|i: int| 0 <= i < files.len() && is_image_path(#[trigger] files[i]);
        lemma_first_where_image(files, i0);
    } else {
        assert forall|i: int| 0 <= i < files.len() implies !is_cover_path(#[trigger] files[i]) by {
        }
    }
    if forall|i: int| 0 <= i < files.len() ==> !is_image_path(#[trigger] files[i]) {
        if exists|i: int| 0 <= i < files.len() && is_cover_path(#[trigger] files[i]) {
            let i0 = choose|i: int| 0 <= i < files.len() && is_cover_path(#[trigger] files[i]);
            assert(is_image_path(files[i0]));
        }
    }
}

/// Some file is cover art: there is a first one.
proof fn lemma_first_where_cover(files: Seq<Seq<char>>, i0: int)
    requires
        0 <= i0 < files.len(),
        is_cover_path(files[i0]),
    ensures
        exists|i: int|
            0 <= i < files.len() && is_cover_path(#[trigger] files[i]) && forall|j: int|
                0 <= j < i ==> !is_cover_path(#[trigger] files[j]),
    decreases i0,
{
    if exists|j: int| 0 <= j < i0 && is_cover_path(#[trigger] files[j]) {
        let j = choose|j: int| 0 <= j < i0 && is_cover_path(#[trigger] files[j]);
        lemma_first_where_cover(files, j);
    } else {
        assert(forall|j: int| 0 <= j < i0 ==> !is_cover_path(#[trigger] files[j]));
    }
}

/// Some file is an image: there is a first one.
proof fn lemma_first_where_image(files: Seq<Seq<char>>, i0: int)
    requires
        0 <= i0 < files.len(),
        is_image_path(files[i0]),
    ensures
        exists|i: int|
            0 <= i < files.len() && is_image_path(#[trigger] files[i]) && forall|j: int|
                0 <= j < i ==> !is_image_path(#[trigger] files[j]),
    decreases i0,
{
    if exists|j: int| 0 <= j < i0 && is_image_path(#[trigger] files[j]) {
        let j = choose|j: int| 0 <= j < i0 && is_image_path(#[trigger] files[j]);
        lemma_first_where_image(files, j);
    } else {
        assert(forall|j: int| 0 <= j < i0 ==> !is_image_path(#[trigger] files[j]));
    }
}

fn image_extension_chars() -> (r: Vec<Vec<char>>)
    ensures
        r@.map_values(|v: Vec<char>| v@) == image_extensions(),
{
    let r = vec![str_chars("jpg"), str_chars("jpeg"), str_chars("png"), str_chars("bmp"), str_chars("gif")];
    assert(r@.map_values(|v: Vec<char>| v@) =~= image_extensions());
    r
}

fn art_name_chars() -> (r: Vec<Vec<char>>)
    ensures
        r@.map_values(|v: Vec<char>| v@) == art_names(),
{
    let r = vec![
        str_chars("cover"),
        str_chars("folder"),
        str_chars("album"),
        str_chars("front"),
        str_chars("art"),
        str_chars("albumart"),
        str_chars("album_art"),
    ];
    assert(r@.map_values(|v: Vec<char>| v@) =~= art_names());
    r
}

/// Whether `path` is an image, and whether it is named like cover art.
fn classify_image(path: &str, exts: &Vec<Vec<char>>, names: &Vec<Vec<char>>) -> (r: (bool, bool))
    requires
        exts@.map_values(|v: Vec<char>| v@) == image_extensions(),
        names@.map_values(|v: Vec<char>| v@) == art_names(),
    ensures
        r.0 == is_image_path(path@),
        r.1 == is_cover_path(path@),
{
    let stem = path_file_stem(path);
    let ext = path_extension(path);
    match (stem, ext) {
        (Some(s), Some(e)) => {
            let ev = lowercase_chars(&str_chars(e.as_str()));
            if contains_chars(exts, &ev) {
                let sv = lowercase_chars(&str_chars(s.as_str()));
                (true, contains_chars(names, &sv))
            } else {
                (false, false)
            }
        },
        _ => (false, false),
    }
}

/// Finds the cover art of a track among the files of its directory
/// (`files`, in listing order): the first image named `cover`, `folder`,
/// `album`, `front`, `art`, `albumart` or `album_art` (jpg, jpeg, png,
/// bmp or gif, in any case), else the first such image of any name.
pub fn find_cover_art(files: &Vec<String>) -> (r: Option<String>)
    ensures
        opt_str_view(r) == cover_choice(files@.map_values(|f: String| f@)),
{
    let ghost fs = files@.map_values(|f: String| f@);
    let exts = image_extension_chars();
    let names = art_name_chars();
    let mut found: Option<usize> = None;
    let n = files.len();
    let mut i: usize = 0;
    while i < n
        invariant
            i <= n,
            n == files@.len(),
            fs == files@.map_values(|f: String| f@),
            exts@.map_values(|v: Vec<char>| v@) == image_extensions(),
            names@.map_values(|v: Vec<char>| v@) == art_names(),
            forall|j: int| 0 <= j < i ==> !is_cover_path(#[trigger] fs[j]),
            match found {
                Some(k) => k < i && is_image_path(fs[k as int]) && forall|j: int|
                    0 <= j < k ==> !is_image_path(#[trigger] fs[j]),
                None => forall|j: int| 0 <= j < i ==> !is_image_path(#[trigger] fs[j]),
            },
        decreases n - i,
    {
        assert(fs[i as int] == files@[i as int]@);
        let (image, cover) = classify_image(files[i].as_str(), &exts, &names);
        if cover {
            proof {
                assert(is_cover_path(fs[i as int]));
                assert(exists|x: int| 0 <= x < fs.len() && is_cover_path(#[trigger] fs[x]));
                let c = choose|x: int|
                    0 <= x < fs.len() && is_cover_path(#[trigger] fs[x]) && forall|j: int|
                        0 <= j < x ==> !is_cover_path(#[trigger] fs[j]);
                assert(c == i) by {
                    if c < i {
                        assert(!is_cover_path(fs[c]));
                    }
                    if c > i {
                        assert(!is_cover_path(fs[i as int]));
                    }
                }
            }
            return Some(files[i].clone());
        }
        if image && found.is_none() {
            found = Some(i);
        }
        i = i + 1;
    }
    proof {
        assert(!exists|x: int| 0 <= x < fs.len() && is_cover_path(#[trigger] fs[x]));
    }
    match found {
        Some(k) => {
            proof {
                assert(exists|x: int| 0 <= x < fs.len() && is_image_path(#[trigger] fs[x])) by {
                    assert(is_image_path(fs[k as int]));
                }
                let c = choose|x: int|
                    0 <= x < fs.len() && is_image_path(#[trigger] fs[x]) && forall|j: int|
                        0 <= j < x ==> !is_image_path(#[trigger] fs[j]);
                assert(c == k) by {
                    if c < k {
                        assert(!is_image_path(fs[c]));
                    }
                    if c > k {
                        assert(!is_image_path(fs[k as int]));
                    }
                }
                assert(fs[k as int] == files@[k as int]@);
            }
            Some(files[k].clone())
        },
        None => None,
    }
}

/// What a scan does with one directory entry.
pub enum ScanStep {
    /// Recurse into this subdirectory.
    Descend(String),
    /// Record this audio file.
    Found(String),
    /// Neither a directory nor an audio file.
    Skip,
}

/// Library scanner: a set of root directories to scan.
pub struct LibraryScanner {
    roots: Vec<String>,
}

/// The views of a sequence of strings.
pub open spec fn string_views(v: Seq<String>) -> Seq<Seq<char>> {
    v.map_values(|s: String| s@)
}

impl View for LibraryScanner {
    type V = Seq<Seq<char>>;

    closed spec fn view(&self) -> Seq<Seq<char>> {
        string_views(self.roots@)
    }
}

impl LibraryScanner {
    /// No path is listed twice as a root.
    pub open spec fn wf(&self) -> bool {
        distinct_paths(self@)
    }

    /// Creates a new scanner with no root directories.
    pub fn new() -> (r: Self)
        ensures
            r.wf(),
            r@ == Seq::<Seq<char>>::empty(),
    {
        let r = LibraryScanner { roots: Vec::new() };
        assert(r@ =~= Seq::<Seq<char>>::empty());
        r
    }

    /// Adds a root directory to scan, unless the same path is already
    /// there.
    ///
    /// Local paths and SMB/UNC paths (e.g. `\\server\share\music`) are
    /// both accepted.
    pub fn add_root(&mut self, path: String)
        requires
            old(self).wf(),
        ensures
            final(self).wf(),
            final(self)@ == if has_path(old(self)@, path@) {
                old(self)@
            } else {
                old(self)@.push(path@)
            },
    {
        let n = self.roots.len();
        let target = PathKey::of(path.as_str());
        let mut i: usize = 0;
        while i < n
            invariant
                i <= n,
                n == self.roots@.len(),
                self@ == old(self)@,
                old(self).wf(),
                target@ == spec_components(path@),
                forall|j: int| 0 <= j < i ==> !same_path(#[trigger] self@[j], path@),
            decreases n - i,
        {
            let key = PathKey::of(self.roots[i].as_str());
            proof {
                assert(self@[i as int] == self.roots@[i as int]@);
            }
            if key.matches(&target) {
                assert(same_path(self@[i as int], path@));
                return;
            }
            i = i + 1;
        }
        let ghost prev = self.roots@;
        self.roots.push(path);
        proof {
            assert(string_views(self.roots@) =~= string_views(prev).push(path@));
            assert forall|a: int, b: int| 0 <= a < b < self@.len() implies !same_path(
                #[trigger] self@[a],
                #[trigger] self@[b],
            ) by {
                if b == self@.len() - 1 {
                    assert(self@[a] == old(self)@[a]);
                    assert(!same_path(old(self)@[a], path@));
                } else {
                    assert(self@[a] == old(self)@[a] && self@[b] == old(self)@[b]);
                }
            }
        }
    }

    /// Removes the root that is the same path as `path`; returns whether
    /// there was one.
    pub fn remove_root(&mut self, path: &str) -> (r: bool)
        requires
            old(self).wf(),
        ensures
            final(self).wf(),
            r == has_path(old(self)@, path@),
            !has_path(final(self)@, path@),
            r ==> exists|k: int| 0 <= k < old(self)@.len() && #[trigger] same_path(
                old(self)@[k],
                path@,
            ) && final(self)@ == old(self)@.remove(k),
            !r ==> final(self)@ == old(self)@,
    {
        let target = PathKey::of(path);
        let n = self.roots.len();
        let mut i: usize = 0;
        while i < n
            invariant
                i <= n,
                n == self.roots@.len(),
                target@ == spec_components(path@),
                self@ == old(self)@,
                old(self).wf(),
                forall|j: int| 0 <= j < i ==> !same_path(#[trigger] self@[j], path@),
            decreases n - i,
        {
            let key = PathKey::of(self.roots[i].as_str());
            proof {
                assert(self@[i as int] == self.roots@[i as int]@);
            }
            if key.matches(&target) {
                let ghost prev = self.roots@;
                self.roots.remove(i);
                proof {
                    assert(string_views(self.roots@) =~= string_views(prev).remove(i as int));
                    let o = old(self)@;
                    assert(same_path(o[i as int], path@));
                    assert forall|a: int, b: int| 0 <= a < b < self@.len() implies !same_path(
                        #[trigger] self@[a],
                        #[trigger] self@[b],
                    ) by {
                        let aa = if a < i { a } else { a + 1 };
                        let bb = if b < i { b } else { b + 1 };
                        assert(self@[a] == o[aa] && self@[b] == o[bb]);
                        assert(!same_path(o[aa], o[bb]));
                    }
                    if has_path(self@, path@) {
                        let k = choose|k: int| 0 <= k < self@.len() && #[trigger] same_path(
                            self@[k],
                            path@,
                        );
                        let kk = if k < i { k } else { k + 1 };
                        assert(self@[k] == o[kk]);
                        if kk < i {
                            assert(!same_path(o[kk], o[i as int]));
                        } else {
                            assert(!same_path(o[i as int], o[kk]));
                        }
                    }
                }
                return true;
            }
            i = i + 1;
        }
        false
    }

    /// Gets all root directories.
    pub fn roots(&self) -> (r: &[String])
        ensures
            string_views(r@) == self@,
    {
        self.roots.as_slice()
    }

    /// Checks if a file has a supported audio extension.
    pub fn is_audio_file(path: &str) -> (r: bool)
        ensures
            r == is_audio_path(path@),
    {
        is_audio_file(path)
    }

    /// What a scan does with a directory entry at `path`: descend into
    /// directories, record audio files, skip the rest.
    pub fn scan_step(path: String, is_dir: bool) -> (r: ScanStep)
        ensures
            is_dir ==> (r matches ScanStep::Descend(p) && p@ == path@),
            !is_dir && is_audio_path(path@) ==> (r matches ScanStep::Found(p) && p@ == path@),
            !is_dir && !is_audio_path(path@) ==> r is Skip,
    {
        if is_dir {
            ScanStep::Descend(path)
        } else if is_audio_file(path.as_str()) {
            ScanStep::Found(path)
        } else {
            ScanStep::Skip
        }
    }
}

/// Adding a root that is not there and removing it again gives back the
/// roots as they were: the only root that is the same path as the added
/// one is the added one, and taking it out leaves the others.
pub proof fn law_add_then_remove_root(roots: Seq<Seq<char>>, p: Seq<char>, k: int)
    requires
        distinct_paths(roots),
        !has_path(roots, p),
        0 <= k < roots.len() + 1,
        same_path(roots.push(p)[k], p),
    ensures
        k == roots.len(),
        roots.push(p).remove(k) == roots,
{
    let r = roots.push(p);
    if k < roots.len() {
        assert(r[k] == roots[k]);
        assert(same_path(roots[k], p));
    }
    assert(r.remove(k) =~= roots);
}

/// Keeping the roots of `s` that are not the same path as `p` keeps all
/// of them when none is.
proof fn lemma_filter_without_absent(s: Seq<Seq<char>>, p: Seq<char>)
    requires
        !has_path(s, p),
    ensures
        s.filter(|x: Seq<char>| !same_path(x, p)) == s,
    decreases s.len(),
{
    reveal(Seq::filter);
    if s.len() > 0 {
        assert(!has_path(s.drop_last(), p)) by {
            if has_path(s.drop_last(), p) {
                let j = choose|j: int| 0 <= j < s.drop_last().len() && #[trigger] same_path(
                    s.drop_last()[j],
                    p,
                );
                assert(same_path(s[j], p));
            }
        }
        lemma_filter_without_absent(s.drop_last(), p);
        assert(!same_path(s.last(), p)) by {
            if same_path(s.last(), p) {
                assert(same_path(s[s.len() - 1], p));
            }
        }
        assert(s.drop_last().push(s.last()) =~= s);
    }
}

/// Removing a root takes out exactly that path and keeps the others in
/// their order: on roots of which no two are the same path, removing the
/// root at `k`, the same path as `p`, gives the roots that are not `p`.
pub proof fn law_remove_root_keeps_others(roots: Seq<Seq<char>>, p: Seq<char>, k: int)
    requires
        distinct_paths(roots),
        0 <= k < roots.len(),
        same_path(roots[k], p),
    ensures
        roots.remove(k) == roots.filter(|x: Seq<char>| !same_path(x, p)),
{
    let a = roots.take(k);
    let b = roots.skip(k + 1);
    let q = roots[k];
    let pred = |x: Seq<char>| !same_path(x, p);
    assert(roots =~= a + seq![q] + b);
    assert(!has_path(a, p)) by {
        if has_path(a, p) {
            let j = choose|j: int| 0 <= j < a.len() && #[trigger] same_path(a[j], p);
            assert(a[j] == roots[j]);
            assert(same_path(roots[j], roots[k]));
        }
    }
    assert(!has_path(b, p)) by {
        if has_path(b, p) {
            let j = choose|j: int| 0 <= j < b.len() && #[trigger] same_path(b[j], p);
            assert(b[j] == roots[k + 1 + j]);
            assert(same_path(roots[k], roots[k + 1 + j]));
        }
    }
    lemma_filter_without_absent(a, p);
    lemma_filter_without_absent(b, p);
    Seq::filter_distributes_over_add(a + seq![q], b, pred);
    Seq::filter_distributes_over_add(a, seq![q], pred);
    assert(seq![q].filter(pred) =~= Seq::<Seq<char>>::empty()) by {
        reveal_with_fuel(Seq::filter, 2);
        assert(seq![q].drop_last() =~= Seq::<Seq<char>>::empty());
        assert(!pred(q));
    }
    assert(roots.remove(k) =~= a + b);
}

impl Default for LibraryScanner {
    fn default() -> (r: Self)
        ensures
            r.wf(),
            r@ == Seq::<Seq<char>>::empty(),
    {
        LibraryScanner::new()
    }
}

} // verus!
