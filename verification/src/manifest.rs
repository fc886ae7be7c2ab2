//! The manifest of a package: one entry for each of its files.

use crate::text::str_eq;
use vstd::prelude::*;

verus! {

/// One entry of the manifest: the path of a file of the package, the version
/// of the document format where it is given, the media type of the file,
/// and the bytes of the file where the entry brings them along.
#[derive(Debug, PartialEq, Eq)]
pub struct Manifest {
    pub full_path: String,
    pub version: Option<String>,
    pub media_type: String,
    pub buffer: Option<Vec<u8>>,
}

impl View for Manifest {
    type V = (Seq<char>, Option<Seq<char>>, Seq<char>, Option<Seq<u8>>);

    open spec fn view(&self) -> (Seq<char>, Option<Seq<char>>, Seq<char>, Option<Seq<u8>>) {
        (
            self.full_path@,
            match self.version {
                Some(v) => Some(v@),
                None => None,
            },
            self.media_type@,
            match self.buffer {
                Some(b) => Some(b@),
                None => None,
            },
        )
    }
}

/// The entries of a manifest as path, version, media type and bytes.
pub open spec fn manifest_views(entries: Seq<Manifest>) -> Seq<
    (Seq<char>, Option<Seq<char>>, Seq<char>, Option<Seq<u8>>),
> {
    entries.map_values(|entry: Manifest| entry@)
}

/// Whether an entry of the manifest has the path `path`.
pub open spec fn has_path(
    entries: Seq<(Seq<char>, Option<Seq<char>>, Seq<char>, Option<Seq<u8>>)>,
    path: Seq<char>,
) -> bool {
    exists|i: int| 0 <= i < entries.len() && (#[trigger] entries[i]).0 == path
}

/// The manifest with one more entry, unless it has an entry of that path.
pub open spec fn with_entry(
    entries: Seq<(Seq<char>, Option<Seq<char>>, Seq<char>, Option<Seq<u8>>)>,
    entry: (Seq<char>, Option<Seq<char>>, Seq<char>, Option<Seq<u8>>),
) -> Seq<(Seq<char>, Option<Seq<char>>, Seq<char>, Option<Seq<u8>>)> {
    if has_path(entries, entry.0) {
        entries
    } else {
        entries.push(entry)
    }
}

impl Manifest {
    /// An entry without bytes and without version.
    pub fn new(full_path: &str, media_type: &str) -> (m: Manifest)
        ensures
            m@ == (full_path@, None::<Seq<char>>, media_type@, None::<Seq<u8>>),
    {
        Manifest {
            full_path: full_path.to_owned(),
            version: None,
            media_type: media_type.to_owned(),
            buffer: None,
        }
    }

    /// An entry that brings the bytes of its file along.
    pub fn with_buf(full_path: &str, media_type: &str, buf: Vec<u8>) -> (m: Manifest)
        ensures
            m@ == (full_path@, None::<Seq<char>>, media_type@, Some(buf@)),
    {
        Manifest {
            full_path: full_path.to_owned(),
            version: None,
            media_type: media_type.to_owned(),
            buffer: Some(buf),
        }
    }

    /// Whether the entry stands for a directory: its path ends in a slash.
    pub open spec fn spec_is_dir(&self) -> bool {
        self.full_path@.len() > 0 && self.full_path@.last() == '/'
    }

    /// Whether the entry stands for a directory.
    #[verifier::when_used_as_spec(spec_is_dir)]
    pub fn is_dir(&self) -> (b: bool)
        ensures
            b == self.spec_is_dir(),
    {
        let path = self.full_path.as_str();
        let n = path.unicode_len();
        n > 0 && path.get_char(n - 1) == '/'
    }
}

/// Whether the manifest has an entry of the path `path`.
pub fn contains_key(entries: &Vec<Manifest>, path: &str) -> (b: bool)
    ensures
        b == has_path(manifest_views(entries@), path@),
{
    let mut i: usize = 0;
    while i < entries.len()
        invariant
            i <= entries.len(),
            forall|j: int| 0 <= j < i ==> (#[trigger] manifest_views(entries@)[j]).0 != path@,
        decreases entries.len() - i,
    {
        if str_eq(entries[i].full_path.as_str(), path) {
            assert(manifest_views(entries@)[i as int].0 == path@);
            return true;
        }
        i += 1;
    }
    false
}

} // verus!
