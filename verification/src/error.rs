//! The failures that the decoding of a reply, of a configuration file or of a
//! source file can end in.
use vstd::prelude::*;

verus! {

/// Why a step of the pipeline failed.
#[derive(Clone, Copy, Debug, PartialEq, Eq, Structural)]
pub enum IndexError {
    /// A reply that should name a root holds no identifier of one.
    RootIdNotFound,
    /// The store knows no root of the identifier asked for.
    RootNotFound,
    /// The stored root carries another name than the directory on disk.
    RootNameMismatch,
    /// A reply that should list or name a folder holds no identifier.
    FolderIdNotFound,
    /// A listed folder has no name.
    FolderNameNotFound,
    /// A reply that should name a file holds no identifier.
    FileIdNotFound,
    /// A listed file has no name.
    FileNameNotFound,
    /// A listed file has no extraction time.
    FileExtractedAtNotFound,
    /// A reply that should name an entity holds no identifier.
    EntityIdNotFound,
    /// A reply that should list entities holds no such list.
    EntitiesNotFound,
    /// The extraction time of a listed file is not an RFC 3339 time.
    InvalidTimestamp,
    /// The index-type configuration could not be read from its file.
    IndexTypesMissing,
    /// The file-type configuration could not be read from its file.
    FileTypesMissing,
    /// The index-type configuration is not JSON of the expected shape.
    IndexTypesMalformed,
    /// The file-type configuration is not JSON of the expected shape.
    FileTypesMalformed,
    /// The syntax parser gave no tree for a source file, or one whose byte
    /// ranges do not fit the file.
    ParseFailed,
}

impl IndexError {
    /// The words that describe this failure in the log.
    pub open spec fn words(self) -> Seq<char> {
        match self {
            IndexError::RootIdNotFound => "Root ID not found"@,
            IndexError::RootNotFound => "Root not found"@,
            IndexError::RootNameMismatch => "Root name does not match"@,
            IndexError::FolderIdNotFound => "Folder ID not found"@,
            IndexError::FolderNameNotFound => "Folder name not found"@,
            IndexError::FileIdNotFound => "File ID not found"@,
            IndexError::FileNameNotFound => "File name not found"@,
            IndexError::FileExtractedAtNotFound => "File extracted at not found"@,
            IndexError::EntityIdNotFound => "Entity ID not found"@,
            IndexError::EntitiesNotFound => "Entities not found"@,
            IndexError::InvalidTimestamp => "Failed to parse date"@,
            IndexError::IndexTypesMissing => "Missing index-types.json"@,
            IndexError::FileTypesMissing => "Missing file_types.json"@,
            IndexError::IndexTypesMalformed => "Malformed index-types.json"@,
            IndexError::FileTypesMalformed => "Malformed file_types.json"@,
            IndexError::ParseFailed => "Failed to parse source file"@,
        }
    }

    /// A short description for the log.
    pub fn message(&self) -> (text: &'static str)
        ensures
            text@ == self.words(),
    {
        match self {
            IndexError::RootIdNotFound => "Root ID not found",
            IndexError::RootNotFound => "Root not found",
            IndexError::RootNameMismatch => "Root name does not match",
            IndexError::FolderIdNotFound => "Folder ID not found",
            IndexError::FolderNameNotFound => "Folder name not found",
            IndexError::FileIdNotFound => "File ID not found",
            IndexError::FileNameNotFound => "File name not found",
            IndexError::FileExtractedAtNotFound => "File extracted at not found",
            IndexError::EntityIdNotFound => "Entity ID not found",
            IndexError::EntitiesNotFound => "Entities not found",
            IndexError::InvalidTimestamp => "Failed to parse date",
            IndexError::IndexTypesMissing => "Missing index-types.json",
            IndexError::FileTypesMissing => "Missing file_types.json",
            IndexError::IndexTypesMalformed => "Malformed index-types.json",
            IndexError::FileTypesMalformed => "Malformed file_types.json",
            IndexError::ParseFailed => "Failed to parse source file",
        }
    }
}

} // verus!
