//! Directory-based playlists: references to directories rather than to
//! individual tracks. Loading one scans each directory for audio files.

use vstd::prelude::*;
use crate::library::LibraryScanner;
use crate::persist::{listed_names, saved_names, sort_names};
use crate::playlist::{dedup_seq, string_views, Playlist};

verus! {

broadcast use vstd::string::group_string_axioms;

/// Errors for directory playlist operations.
#[derive(Debug)]
pub enum DirPlaylistError {
    /// An input/output failure, with the system's message.
    Io(String),
    /// The playlist file is not valid JSON for a directory playlist.
    Json(String),
    /// A directory of the playlist does not exist.
    DirNotFound(String),
    /// Scanning a directory failed.
    ScanError(String),
}

impl DirPlaylistError {
    /// The error's message.
    pub fn message(&self) -> (r: String)
        ensures
            r@ == match self {
                DirPlaylistError::Io(s) => "IO error: "@ + s@,
                DirPlaylistError::Json(s) => "JSON error: "@ + s@,
                DirPlaylistError::DirNotFound(s) => "Directory not found: "@ + s@,
                DirPlaylistError::ScanError(s) => "Scan error: "@ + s@,
            },
    {
        match self {
            DirPlaylistError::Io(s) => crate::text::prefixed("IO error: ", s.as_str()),
            DirPlaylistError::Json(s) => crate::text::prefixed("JSON error: ", s.as_str()),
            DirPlaylistError::DirNotFound(s) => crate::text::prefixed("Directory not found: ", s.as_str()),
            DirPlaylistError::ScanError(s) => crate::text::prefixed("Scan error: ", s.as_str()),
        }
    }
}

/// A playlist stored as a `.horikawa` JSON file holding one or more
/// directory references.
pub struct DirectoryPlaylist {
    /// Display name for the playlist.
    pub name: String,
    /// One or more directory paths to scan when loaded.
    pub directories: Vec<String>,
}

/// Index of the first directory reported missing.
pub open spec fn first_missing(exists: Seq<bool>) -> Option<nat>
    decreases exists.len(),
{
    if exists.len() == 0 {
        None
    } else if !exists[0] {
        Some(0)
    } else {
        match first_missing(exists.drop_first()) {
            Some(k) => Some(k + 1),
            None => None,
        }
    }
}

proof fn lemma_first_missing(exists: Seq<bool>, i: int)
    requires
        0 <= i <= exists.len(),
        forall|j: int| 0 <= j < i ==> #[trigger] exists[j],
    ensures
        i < exists.len() && !exists[i] ==> first_missing(exists) == Some(i as nat),
        i == exists.len() ==> first_missing(exists) is None,
    decreases i,
{
    if i > 0 {
        lemma_first_missing(exists.drop_first(), i - 1);
    }
}

impl DirectoryPlaylist {
    /// Creates a new directory playlist with a single directory.
    pub fn new(name: String, directory: String) -> (r: Self)
        ensures
            r.name@ == name@,
            string_views(r.directories@) == seq![directory@],
    {
        let r = DirectoryPlaylist { name, directories: vec![directory] };
        assert(string_views(r.directories@) =~= seq![directory@]);
        r
    }

    /// Prepares the scan of this playlist: every directory must exist
    /// (`is_dir[i]` tells whether `directories[i]` is a directory); the
    /// first one that does not is reported. Otherwise the result is a
    /// scanner over the directories, each listed once, in order; walking
    /// it finds the playlist's tracks.
    pub fn scan(&self, is_dir: &[bool]) -> (r: Result<LibraryScanner, DirPlaylistError>)
        requires
            is_dir@.len() == self.directories@.len(),
        ensures
            match first_missing(is_dir@) {
                Some(k) => r matches Err(DirPlaylistError::DirNotFound(d)) && d@
                    == self.directories@[k as int]@,
                None => r matches Ok(s) && s.wf() && s@ == dedup_seq(
                    string_views(self.directories@),
                ),
            },
    {
        let ghost dirs = string_views(self.directories@);
        let mut scanner = LibraryScanner::new();
        let n = self.directories.len();
        let mut i: usize = 0;
        proof {
            assert(dirs.take(0) =~= Seq::<Seq<char>>::empty());
        }
        while i < n
            invariant
                i <= n,
                n == self.directories@.len(),
                n == is_dir@.len(),
                dirs == string_views(self.directories@),
                forall|j: int| 0 <= j < i ==> #[trigger] is_dir@[j],
                scanner.wf(),
                scanner@ == dedup_seq(dirs.take(i as int)),
            decreases n - i,
        {
            if !is_dir[i] {
                proof {
                    lemma_first_missing(is_dir@, i as int);
                }
                return Err(DirPlaylistError::DirNotFound(self.directories[i].clone()));
            }
            proof {
                assert(dirs.take(i + 1).drop_last() =~= dirs.take(i as int));
                assert(dirs.take(i + 1).last() == self.directories@[i as int]@);
            }
            scanner.add_root(self.directories[i].clone());
            i = i + 1;
        }
        proof {
            lemma_first_missing(is_dir@, n as int);
            assert(dirs.take(n as int) =~= dirs);
        }
        Ok(scanner)
    }

    /// The names of the saved directory playlists, given the files of the
    /// playlist directory: the stems of the `.horikawa` files, without
    /// `_last`, sorted.
    pub fn list(paths: &Vec<String>) -> (r: Vec<String>)
        ensures
            string_views(r@) == sort_names(listed_names(string_views(paths@), "horikawa"@)),
    {
        saved_names(paths, "horikawa")
    }

    /// Gets the playlist directory (the same as for M3U playlists).
    pub fn playlist_dir() -> (r: Option<String>)
        ensures
            r matches Some(p) ==> exists|base: Seq<char>| p@
                == crate::playlist::playlist_dir_under(base),
    {
        Playlist::playlist_dir()
    }
}

} // verus!
