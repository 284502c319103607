//! Where a file is.

use vstd::prelude::*;

verus! {

/// A file or directory, named by the directory that holds it and its name in
/// there.
#[derive(Clone, Debug, PartialEq, Eq)]
pub struct FileLocation {
    pub directory: String,
    pub file_name: String,
}

/// The mathematical value of a `FileLocation`.
pub struct FileLocationView {
    pub directory: Seq<char>,
    pub file_name: Seq<char>,
}

impl View for FileLocation {
    type V = FileLocationView;

    open spec fn view(&self) -> FileLocationView {
        FileLocationView { directory: self.directory@, file_name: self.file_name@ }
    }
}

} // verus!
