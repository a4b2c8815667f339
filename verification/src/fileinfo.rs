//! What the editor knows of the file behind a buffer.

use vstd::prelude::*;
use vstd::string::*;

verus! {

/// The path of a file, the name under which it is shown and its extension.
/// A buffer that was never read from a file nor written to one has no path.
#[derive(Debug)]
pub struct FileInfo {
    path: Option<String>,
    name: String,
    extension: Option<String>,
}

impl FileInfo {
    /// The path, if the buffer has a file.
    pub closed spec fn path(&self) -> Option<Seq<char>> {
        match self.path {
            Some(p) => Some(p@),
            None => None,
        }
    }

    /// The name under which the file is shown.
    pub closed spec fn name(&self) -> Seq<char> {
        self.name@
    }

    /// The extension of the file name, if it has one.
    pub closed spec fn extension(&self) -> Option<Seq<char>> {
        match self.extension {
            Some(e) => Some(e@),
            None => None,
        }
    }

    /// The name under which a buffer without a file is shown.
    pub open spec fn no_name() -> Seq<char> {
        "[No Name]"@
    }

    /// What is known of a buffer without a file.
    pub fn new() -> (r: Self)
        ensures
            r.path() is None,
            r.extension() is None,
            r.name() == Self::no_name(),
    {
        FileInfo { path: None, name: "[No Name]".to_owned(), extension: None }
    }

    /// What is known of the file at `path`, which is shown as `name` and has
    /// the extension `extension`.
    pub fn from(path: &str, name: &str, extension: Option<&str>) -> (r: Self)
        ensures
            r.path() == Some(path@),
            r.name() == name@,
            r.extension() == match extension {
                Some(e) => Some(e@),
                None => None,
            },
    {
        FileInfo {
            path: Some(path.to_owned()),
            name: name.to_owned(),
            extension: match extension {
                Some(e) => Some(e.to_owned()),
                None => None,
            },
        }
    }

    /// The path, if the buffer has a file.
    pub fn get_path(&self) -> (r: Option<&str>)
        ensures
            r is Some <==> self.path() is Some,
            r is Some ==> r->0@ == self.path()->0,
    {
        match &self.path {
            Some(p) => Some(p.as_str()),
            None => None,
        }
    }

    /// The extension of the file name, if it has one.
    pub fn get_extension(&self) -> (r: Option<&str>)
        ensures
            r is Some <==> self.extension() is Some,
            r is Some ==> r->0@ == self.extension()->0,
    {
        match &self.extension {
            Some(e) => Some(e.as_str()),
            None => None,
        }
    }

    /// Whether the buffer has a file.
    pub fn has_path(&self) -> (r: bool)
        ensures
            r == self.path() is Some,
    {
        self.path.is_some()
    }

    /// The name under which the file is shown.
    pub fn to_string(&self) -> (r: String)
        ensures
            r@ == self.name(),
    {
        self.name.clone()
    }
}

impl Default for FileInfo {
    fn default() -> (r: Self)
        ensures
            r.path() is None,
            r.extension() is None,
            r.name() == Self::no_name(),
    {
        Self::new()
    }
}

} // verus!
