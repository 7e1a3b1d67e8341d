//! Where stored NAR files live: paths under the storage directory, and the
//! guard that marks a partly written file for removal.

use vstd::prelude::*;
use crate::text::{chars_of, owned, push_char, push_str};

verus! {

/// What `Path::join` gives on Unix: an absolute `name` replaces `base`;
/// otherwise `name` is appended, with a `/` between unless `base` is empty
/// or already ends in one.
pub open spec fn join_path_spec(base: Seq<char>, name: Seq<char>) -> Seq<char> {
    if name.len() > 0 && name[0] == '/' {
        name
    } else if base.len() == 0 || base.last() == '/' {
        base + name
    } else {
        base + seq!['/'] + name
    }
}

/// Join `name` onto the directory `base`.
pub fn join_path(base: &str, name: &str) -> (p: String)
    ensures
        p@ == join_path_spec(base@, name@),
{
    let n = chars_of(name);
    if n.len() > 0 && n[0] == '/' {
        return owned(name);
    }
    let b = chars_of(base);
    let mut p = owned(base);
    if !(b.len() == 0 || b[b.len() - 1] == '/') {
        push_char(&mut p, '/');
    }
    push_str(&mut p, name);
    proof {
        assert(b@ == base@);
    }
    p
}

/// File-based storage backend for NAR files.
#[derive(Debug, Clone)]
pub struct FileStorage {
    /// Directory holding the files.
    pub base_path: String,
}

impl FileStorage {
    /// The full path of a stored file.
    pub fn file_path(&self, filename: &str) -> (p: String)
        ensures
            p@ == join_path_spec(self.base_path@, filename@),
    {
        join_path(self.base_path.as_str(), filename)
    }
}

/// The storage as the upload route of an earlier layout used it: the same
/// directory of files.
#[derive(Debug, Clone)]
pub struct Storage {
    /// Directory holding the files.
    pub base_path: String,
}

impl Storage {
    /// The full path of a stored file.
    pub fn file_path(&self, filename: &str) -> (p: String)
        ensures
            p@ == join_path_spec(self.base_path@, filename@),
    {
        join_path(self.base_path.as_str(), filename)
    }
}

/// Marks a file being written: while armed, the file is to be removed
/// (when the write fails); disarming keeps it.
#[derive(Debug)]
pub struct WriteGuard {
    path: String,
    armed: bool,
}

impl WriteGuard {
    /// The file guarded.
    pub closed spec fn path_spec(&self) -> Seq<char> {
        self.path@
    }

    /// Whether the file is still to be removed.
    pub closed spec fn armed_spec(&self) -> bool {
        self.armed
    }

    /// Guard `path`, armed.
    pub fn new(path: String) -> (g: WriteGuard)
        ensures
            g.path_spec() == path@,
            g.armed_spec(),
    {
        WriteGuard { path, armed: true }
    }

    /// Keep the file: the write succeeded.
    pub fn disarm(&mut self)
        ensures
            final(self).path_spec() == old(self).path_spec(),
            !final(self).armed_spec(),
    {
        self.armed = false;
    }

    /// Whether the file is still to be removed.
    pub fn is_armed(&self) -> (b: bool)
        ensures
            b == self.armed_spec(),
    {
        self.armed
    }

    /// The file guarded.
    pub fn path(&self) -> (p: &str)
        ensures
            p@ == self.path_spec(),
    {
        self.path.as_str()
    }
}

} // verus!
