use vstd::prelude::*;

verus! {

/// Test case definition for a painless script test.
pub struct TestCase<'a> {
    pub id: &'a str,
    pub state: Option<DocRef>,
    pub incoming: DocRef,
    pub expected: Option<DocRef>,
}

/// Where a document comes from: a file, or the text itself.
pub enum DocRef {
    Filepath(String),
    Raw(String),
}

/// What reading a file gave.
pub enum FileRead {
    Content(String),
    Missing,
    Failed(String),
}

/// Which document of a command a failure is about.
#[derive(Clone, Copy, Debug, PartialEq, Eq, Structural)]
pub enum DocRole {
    State,
    Incoming,
    Expected,
    Mapping,
}

/// Why a document could not be had.
pub enum DocError {
    /// No file at this path.
    NotFound(String),
    /// The file could not be read.
    IoError(String),
    /// The text is not JSON (or, for a mapping, not a JSON object).
    InvalidDocument(DocRole),
}

impl DocRef {
    /// The document's text: a raw one as it stands, a file's from what reading
    /// it gave (`file` matters only for a path).
    pub fn resolve_with(&self, file: FileRead) -> (r: Result<String, DocError>)
        ensures
            match self {
                DocRef::Raw(s) => r matches Ok(t) && t@ == s@,
                DocRef::Filepath(p) => match file {
                    FileRead::Content(c) => r matches Ok(t) && t@ == c@,
                    FileRead::Missing => r matches Err(DocError::NotFound(q)) && q@ == p@,
                    FileRead::Failed(m) => r matches Err(DocError::IoError(n)) && n@ == m@,
                },
            },
    {
        match self {
            DocRef::Raw(s) => Ok(s.clone()),
            DocRef::Filepath(p) => match file {
                FileRead::Content(c) => Ok(c),
                FileRead::Missing => Err(DocError::NotFound(p.clone())),
                FileRead::Failed(m) => Err(DocError::IoError(m)),
            },
        }
    }
}

} // verus!
