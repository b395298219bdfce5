//! The file descriptions exchanged when a transfer is prepared.
use vstd::prelude::*;

verus! {

broadcast use vstd::string::group_string_axioms;

/// Timestamps a sender may attach to a file.
#[derive(Debug, Clone)]
pub struct FileMetadata {
    pub modified: Option<String>,
    pub accessed: Option<String>,
}

/// One file announced by a sender.
#[derive(Debug, Clone)]
pub struct FileDto {
    pub id: String,
    pub file_name: String,
    pub size: u64,
    pub file_type: String,
    pub sha256: Option<String>,
    pub preview: Option<String>,
    pub metadata: Option<FileMetadata>,
}

pub open spec fn opt_view(o: Option<String>) -> Option<Seq<char>> {
    match o {
        Some(s) => Some(s@),
        None => None,
    }
}

pub struct FileMetadataView {
    pub modified: Option<Seq<char>>,
    pub accessed: Option<Seq<char>>,
}

pub struct FileDtoView {
    pub id: Seq<char>,
    pub file_name: Seq<char>,
    pub size: u64,
    pub file_type: Seq<char>,
    pub sha256: Option<Seq<char>>,
    pub preview: Option<Seq<char>>,
    pub metadata: Option<FileMetadataView>,
}

impl View for FileMetadata {
    type V = FileMetadataView;

    open spec fn view(&self) -> FileMetadataView {
        FileMetadataView { modified: opt_view(self.modified), accessed: opt_view(self.accessed) }
    }
}

impl View for FileDto {
    type V = FileDtoView;

    open spec fn view(&self) -> FileDtoView {
        FileDtoView {
            id: self.id@,
            file_name: self.file_name@,
            size: self.size,
            file_type: self.file_type@,
            sha256: opt_view(self.sha256),
            preview: opt_view(self.preview),
            metadata: match self.metadata {
                Some(m) => Some(m@),
                None => None,
            },
        }
    }
}

/// Copy of an optional string.
pub fn clone_opt(o: &Option<String>) -> (r: Option<String>)
    ensures
        opt_view(r) == opt_view(*o),
{
    match o {
        Some(s) => Some(s.clone()),
        None => None,
    }
}

impl FileDto {
    /// A field-by-field copy.
    pub fn copy(&self) -> (r: FileDto)
        ensures
            r@ == self@,
    {
        FileDto {
            id: self.id.clone(),
            file_name: self.file_name.clone(),
            size: self.size,
            file_type: self.file_type.clone(),
            sha256: clone_opt(&self.sha256),
            preview: clone_opt(&self.preview),
            metadata: match &self.metadata {
                Some(m) => Some(
                    FileMetadata { modified: clone_opt(&m.modified), accessed: clone_opt(&m.accessed) },
                ),
                None => None,
            },
        }
    }
}

} // verus!
