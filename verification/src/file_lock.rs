//! A lock held by the existence of a file: the record of a held lock, and
//! the decision of which path to remove on unlock. Creating and removing the
//! file itself is input/output and stays with the host.

use vstd::prelude::*;

verus! {

/// A held file lock: the path of the lock file the host created.
#[derive(Debug)]
pub struct FileLock {
    /// The path of the lock file.
    path: String,
}

impl View for FileLock {
    type V = Seq<char>;

    closed spec fn view(&self) -> Seq<char> {
        self.path@
    }
}

impl FileLock {
    /// Records a lock whose file the host has just created at `path`.
    pub fn new(path: String) -> (r: Self)
        ensures
            r@ == path@,
    {
        FileLock { path }
    }

    /// Gives the lock up: consumes the record and returns the path of the
    /// file that the host must now remove.
    pub fn unlock(self) -> (path: String)
        ensures
            path@ == self@,
    {
        self.path
    }

    /// The path of the lock file, for diagnostics.
    pub fn path(&self) -> (path: &str)
        ensures
            path@ == self@,
    {
        self.path.as_str()
    }
}

} // verus!
