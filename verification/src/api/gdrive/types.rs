//! What a listing of the remote folder is made of.

use vstd::prelude::*;

verus! {

/// One entry of the remote folder: a file or a directory.
#[derive(Debug, PartialEq, Eq)]
pub struct GdriveFile {
    /// Where the entry lies, relative to the folder, with `/` between the
    /// components.
    pub path: String,
    /// The last component of the path.
    pub name: String,
    pub is_dir: bool,
    /// Size in bytes; zero where none is known.
    pub size: i64,
    /// Media type; empty where none is known.
    pub mime_type: String,
}

/// What a `GdriveFile` stands for.
pub struct FileModel {
    pub path: Seq<char>,
    pub name: Seq<char>,
    pub is_dir: bool,
    pub size: i64,
    pub mime_type: Seq<char>,
}

impl View for GdriveFile {
    type V = FileModel;

    open spec fn view(&self) -> FileModel {
        FileModel {
            path: self.path@,
            name: self.name@,
            is_dir: self.is_dir,
            size: self.size,
            mime_type: self.mime_type@,
        }
    }
}

/// What each entry of a list stands for.
pub open spec fn file_views(files: Seq<GdriveFile>) -> Seq<FileModel> {
    Seq::new(files.len(), |i: int| files[i]@)
}

impl GdriveFile {
    /// An entry made of the fields of a listing item. An item without a size
    /// counts as empty, one without a media type has none.
    pub fn new(
        path: String,
        name: String,
        is_dir: bool,
        size: Option<i64>,
        mime_type: Option<String>,
    ) -> (file: Self)
        ensures
            file@ == (FileModel {
                path: path@,
                name: name@,
                is_dir,
                size: match size {
                    Some(n) => n,
                    None => 0,
                },
                mime_type: match mime_type {
                    Some(m) => m@,
                    None => Seq::empty(),
                },
            }),
    {
        GdriveFile {
            path,
            name,
            is_dir,
            size: match size {
                Some(n) => n,
                None => 0,
            },
            mime_type: match mime_type {
                Some(m) => m,
                None => String::new(),
            },
        }
    }

    /// A copy of the entry.
    pub fn duplicate(&self) -> (copy: Self)
        ensures
            copy@ == self@,
    {
        GdriveFile {
            path: self.path.clone(),
            name: self.name.clone(),
            is_dir: self.is_dir,
            size: self.size,
            mime_type: self.mime_type.clone(),
        }
    }
}

} // verus!
