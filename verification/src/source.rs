use vstd::prelude::*;

use crate::span::CodeSourceId;

verus! {

/// The text of one source, and the path of the file it was read from (if any).
#[derive(Debug)]
pub struct CodeSource {
    pub content: String,
    pub file_path: Option<String>,
}

/// Where a source comes from.
#[derive(Debug)]
pub enum CodeSourceKind {
    /// Source text that was given directly.
    Virtual,
    /// A file, by its path.
    File(String),
}

/// The final component of a path (`std::path::Path::file_name`), where there is one.
pub uninterp spec fn path_file_name(path: Seq<char>) -> Option<Seq<char>>;

/// `std::path::Path::file_name`, with its result as a `str`: the final
/// component of the path, if there is one. Its result is named
/// `path_file_name`; nothing more is stated of it here.
#[verifier::external_body]
fn file_name_of(path: &str) -> (r: Option<&str>)
    ensures
        match r {
            Some(n) => path_file_name(path@) == Some(n@),
            None => path_file_name(path@) is None,
        },
{
    std::path::Path::new(path).file_name().and_then(|name| name.to_str())
}

impl CodeSourceKind {
    pub open spec fn spec_source_name(self) -> Seq<char> {
        match self {
            CodeSourceKind::Virtual => "<virtual>"@,
            CodeSourceKind::File(path) => path@,
        }
    }

    /// The name under which diagnostics of the source are filed: its path, or `<virtual>`.
    pub fn source_name(&self) -> (r: String)
        ensures
            r@ == self.spec_source_name(),
    {
        match self {
            CodeSourceKind::Virtual => "<virtual>".to_owned(),
            CodeSourceKind::File(path) => path.clone(),
        }
    }

    pub fn duplicate(&self) -> (r: CodeSourceKind)
        ensures
            r.spec_source_name() == self.spec_source_name(),
            (r is Virtual) == (*self is Virtual),
    {
        match self {
            CodeSourceKind::Virtual => CodeSourceKind::Virtual,
            CodeSourceKind::File(path) => CodeSourceKind::File(path.clone()),
        }
    }
}

impl CodeSource {
    pub fn new(content: String, file_path: Option<String>) -> (r: Self)
        ensures
            r.content@ == content@,
            r.file_path == file_path,
    {
        CodeSource { content, file_path }
    }

    /// A source given directly as text.
    pub fn from_text(text: &str) -> (r: Self)
        ensures
            r.content@ == text@,
            r.file_path is None,
    {
        CodeSource { content: text.to_owned(), file_path: None }
    }

    /// The empty source of no file.
    pub fn void() -> (r: Self)
        ensures
            r.content@.len() == 0,
            r.file_path is None,
    {
        CodeSource { content: String::new(), file_path: None }
    }

    pub fn source(&self) -> (r: &str)
        ensures
            r@ == self.content@,
    {
        self.content.as_str()
    }

    pub fn is_empty(&self) -> (r: bool)
        ensures
            r == (self.content@.len() == 0),
    {
        self.content.as_str().is_empty()
    }

    /// The length of the text in bytes.
    pub fn len(&self) -> (r: usize)
        ensures
            r == vstd::utf8::encode_utf8(self.content@).len() as usize,
    {
        self.content.as_str().len()
    }

    /// The final component of the file's path; `None` for a source that is no file.
    pub fn file_name(&self) -> (r: Option<&str>)
        ensures
            match self.file_path {
                None => r is None,
                Some(p) => match r {
                    Some(n) => path_file_name(p@) == Some(n@),
                    None => path_file_name(p@) is None,
                },
            },
    {
        match &self.file_path {
            Some(path) => file_name_of(path.as_str()),
            None => None,
        }
    }

    pub open spec fn spec_source_file(self) -> Seq<char> {
        match self.file_path {
            Some(p) => p@,
            None => "<virtual>"@,
        }
    }

    /// The path of the file, or `<virtual>`.
    pub fn source_file(&self) -> (r: &str)
        ensures
            r@ == self.spec_source_file(),
    {
        match &self.file_path {
            Some(p) => p.as_str(),
            None => "<virtual>",
        }
    }

    pub fn is_file(&self) -> (r: bool)
        ensures
            r == self.file_path is Some,
    {
        self.file_path.is_some()
    }

    /// Where the source comes from.
    pub fn kind(&self) -> (r: CodeSourceKind)
        ensures
            r.spec_source_name() == self.spec_source_file(),
            (r is Virtual) == (self.file_path is None),
    {
        match &self.file_path {
            Some(p) => CodeSourceKind::File(p.clone()),
            None => CodeSourceKind::Virtual,
        }
    }
}

/// The sources of a compilation, each with the identifier it was registered under.
#[derive(Debug)]
pub struct SourceManager {
    sources: Vec<CodeSource>,
}

impl SourceManager {
    pub closed spec fn spec_sources(self) -> Seq<CodeSource> {
        self.sources@
    }

    pub fn new() -> (r: Self)
        ensures
            r.spec_sources().len() == 0,
    {
        SourceManager { sources: Vec::new() }
    }

    /// Registers `source`; its identifier is the number of sources registered before it.
    /// The identifier `u32::MAX` is reserved, so at most `u32::MAX` sources can be registered.
    pub fn add_source(&mut self, source: CodeSource) -> (id: CodeSourceId)
        requires
            old(self).spec_sources().len() < u32::MAX,
        ensures
            id.spec_value() == old(self).spec_sources().len(),
            final(self).spec_sources() == old(self).spec_sources().push(source),
    {
        let id = CodeSourceId::new(self.sources.len() as u32);
        self.sources.push(source);
        id
    }

    /// The source registered under `id`.
    pub fn get_source(&self, id: CodeSourceId) -> (r: Option<&CodeSource>)
        ensures
            id.spec_value() < self.spec_sources().len() ==> r == Some(&self.spec_sources()[id.spec_value() as int]),
            id.spec_value() >= self.spec_sources().len() ==> r is None,
    {
        let i = id.value() as usize;
        if i < self.sources.len() {
            Some(&self.sources[i])
        } else {
            None
        }
    }

    pub fn get_sources(&self) -> (r: &[CodeSource])
        ensures
            r@ == self.spec_sources(),
    {
        self.sources.as_slice()
    }
}

/// A source registered in a manager can be read back under the identifier it was given,
/// and registering it leaves the sources registered before unchanged.
pub proof fn lemma_add_then_get(
    before: SourceManager,
    after: SourceManager,
    source: CodeSource,
    id: CodeSourceId,
    other: CodeSourceId,
)
    requires
        id.spec_value() == before.spec_sources().len(),
        after.spec_sources() == before.spec_sources().push(source),
        other.spec_value() < before.spec_sources().len(),
    ensures
        id.spec_value() < after.spec_sources().len(),
        after.spec_sources()[id.spec_value() as int] == source,
        after.spec_sources()[other.spec_value() as int] == before.spec_sources()[other.spec_value() as int],
{
}

} // verus!
