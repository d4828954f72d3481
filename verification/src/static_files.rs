//! Static files: which file a request names, whether it may be served, and
//! under which media type.
//!
//! Files are served from below one directory, the public directory. A path is
//! held as its components. The file system is not touched here: the caller
//! makes a path canonical and reads the file, and hands in what it got.

use vstd::prelude::*;
use vstd::string::*;

verus! {

/// The name of the public directory, relative to where the server runs.
pub const PUBLIC_DIR: &'static str = "public";

/// Why a file is not served.
#[derive(Clone, Copy, Debug, PartialEq, Eq, Structural)]
pub enum FileError {
    /// There is no such file.
    NotFound,
    /// The file lies outside of the public directory.
    Denied,
    /// Any other failure of the file system.
    Other,
}

/// A path: whether it starts at the root, and its components in order.
#[derive(Debug, PartialEq, Eq)]
pub struct FilePath {
    pub absolute: bool,
    pub parts: Vec<String>,
}

/// A path as a value.
pub struct FilePathView {
    pub absolute: bool,
    pub parts: Seq<Seq<char>>,
}

impl View for FilePath {
    type V = FilePathView;

    open spec fn view(&self) -> FilePathView {
        FilePathView { absolute: self.absolute, parts: self.parts@.map_values(|s: String| s@) }
    }
}

impl FilePathView {
    /// The path of the public directory, relative to where the server runs.
    pub open spec fn public_dir() -> FilePathView {
        FilePathView { absolute: false, parts: seq![PUBLIC_DIR@] }
    }

    /// The path that a requested path stands for: itself where it is
    /// absolute, else the path below the public directory.
    pub open spec fn resolved(self) -> FilePathView {
        if self.absolute {
            self
        } else {
            FilePathView { absolute: false, parts: seq![PUBLIC_DIR@] + self.parts }
        }
    }

    /// Whether the path is `base` or lies below it: both start at the root or
    /// neither does, and the components of `base` are the first components of
    /// the path. Only whole components count.
    pub open spec fn starts_with(self, base: FilePathView) -> bool {
        self.absolute == base.absolute && base.parts.is_prefix_of(self.parts)
    }

    /// The last component, or the empty name where there is none.
    pub open spec fn file_name(self) -> Seq<char> {
        if self.parts.len() == 0 {
            Seq::empty()
        } else {
            self.parts.last()
        }
    }
}

/// The base that paths are held against: the canonical path of the public
/// directory, or its plain relative path where it could not be made
/// canonical.
pub open spec fn base_of(canonical: Result<FilePath, FileError>) -> FilePathView {
    match canonical {
        Ok(path) => path@,
        Err(_) => FilePathView::public_dir(),
    }
}

/// Whether a file may be served, given the canonical path of the requested
/// file or the failure to make it canonical: a failure is passed on, a path
/// outside of `base` is denied.
pub open spec fn authorized(base: FilePathView, canonical: Result<FilePath, FileError>) -> Result<
    (),
    FileError,
> {
    match canonical {
        Err(e) => Err(e),
        Ok(path) => if path@.starts_with(base) {
            Ok(())
        } else {
            Err(FileError::Denied)
        },
    }
}

/// The media type that is guessed for a path, from its extension.
pub uninterp spec fn guessed_mime(path: Seq<char>) -> Seq<char>;

/// Guesses the media type of a path with `mime_guess::from_path`, takes the
/// first guess or `application/octet-stream` where there is none
/// (`MimeGuess::first_or_octet_stream`), and gives its essence, the type
/// without parameters (`Mime::essence_str`). The guess is a lookup of the
/// path's extension in a fixed table. The contract gives the result the name
/// [`guessed_mime`] and states nothing else of it.
#[verifier::external_body]
fn guess_mime(path: &str) -> (mime: String)
    ensures
        mime@ == guessed_mime(path@),
{
    mime_guess::from_path(path).first_or_octet_stream().essence_str().to_string()
}

impl FilePath {
    /// The path of the public directory.
    pub fn public_dir() -> (dir: FilePath)
        ensures
            dir@ == FilePathView::public_dir(),
    {
        let mut parts: Vec<String> = Vec::new();
        parts.push(String::from_str(PUBLIC_DIR));
        let dir = FilePath { absolute: false, parts };
        assert(dir@.parts =~= seq![PUBLIC_DIR@]);
        dir
    }

    /// Resolves a requested path: an absolute path stands for itself, a
    /// relative one for the path below the public directory.
    pub fn resolve(self) -> (full: FilePath)
        ensures
            full@ == self@.resolved(),
    {
        if self.absolute {
            self
        } else {
            let mut rest = self.parts;
            let mut parts: Vec<String> = Vec::new();
            parts.push(String::from_str(PUBLIC_DIR));
            parts.append(&mut rest);
            let full = FilePath { absolute: false, parts };
            assert(full@.parts =~= seq![PUBLIC_DIR@] + self@.parts);
            full
        }
    }

    /// Whether the path is `base` or lies below it.
    pub fn starts_with(&self, base: &FilePath) -> (r: bool)
        ensures
            r == self@.starts_with(base@),
    {
        if self.absolute != base.absolute || base.parts.len() > self.parts.len() {
            return false;
        }
        let mut i: usize = 0;
        while i < base.parts.len()
            invariant
                i <= base.parts.len() <= self.parts.len(),
                forall|k: int| 0 <= k < i ==> (#[trigger] base@.parts[k]) == self@.parts[k],
            decreases base.parts.len() - i,
        {
            if base.parts[i] != self.parts[i] {
                assert(base@.parts[i as int] != self@.parts[i as int]);
                return false;
            }
            i += 1;
        }
        assert(base@.parts =~= self@.parts.subrange(0, base@.parts.len() as int));
        true
    }

    /// The media type under which the file at this path is served: the guess
    /// for its last component.
    pub fn content_type(&self) -> (mime: String)
        ensures
            mime@ == guessed_mime(self@.file_name()),
    {
        let n: usize = self.parts.len();
        if n == 0 {
            proof {
                reveal_strlit("");
            }
            assert(""@ =~= Seq::<char>::empty());
            guess_mime("")
        } else {
            assert(self@.parts.last() == self.parts@[n - 1]@);
            guess_mime(self.parts[n - 1].as_str())
        }
    }
}

/// The base that paths are held against.
pub fn base_dir(canonical: Result<FilePath, FileError>) -> (base: FilePath)
    ensures
        base@ == base_of(canonical),
{
    match canonical {
        Ok(path) => path,
        Err(_) => FilePath::public_dir(),
    }
}

/// Decides whether a file may be served.
pub fn authorize(base: &FilePath, canonical: &Result<FilePath, FileError>) -> (r: Result<
    (),
    FileError,
>)
    ensures
        r == authorized(base@, *canonical),
{
    match canonical {
        Err(e) => Err(*e),
        Ok(path) => if path.starts_with(base) {
            Ok(())
        } else {
            Err(FileError::Denied)
        },
    }
}

} // verus!
