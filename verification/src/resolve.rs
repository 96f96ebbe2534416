//! The steps around the classifier: which argument names the shared code,
//! where that code lies, and whether what lies there may be copied.

use vstd::prelude::*;
use vstd::string::StringExecFns;
use crate::language::LanguageType;

verus! {

/// What is found at the place where the shared code should lie.
#[derive(Debug, Clone, Copy, PartialEq, Eq, Structural)]
pub enum SourceKind {
    File,
    Directory,
    /// Something that is neither a file nor a directory.
    Other,
}

/// Why nothing is copied.
#[derive(Debug)]
pub enum Failure {
    /// No argument names the shared code.
    MissingArgument,
    /// The place where the shared code should lie cannot be looked at; the
    /// text says why.
    SourceUnavailable(String),
    /// A directory lies where the shared code should.
    SourceIsDirectory,
    /// What lies where the shared code should is neither a file nor a
    /// directory.
    SourceIsNeither,
}

impl Failure {
    /// The text that reports the failure.
    pub open spec fn text(self) -> Seq<char> {
        match self {
            Failure::MissingArgument => "You're missing arguments"@,
            Failure::SourceUnavailable(reason) => reason@,
            Failure::SourceIsDirectory => "Path exits but is neither no file"@,
            Failure::SourceIsNeither => "Path exits but is neither file nor directory"@,
        }
    }

    /// The text that reports the failure.
    pub fn message(&self) -> (text: String)
        ensures
            text@ == self.text(),
    {
        match self {
            Failure::MissingArgument => "You're missing arguments".to_owned(),
            Failure::SourceUnavailable(reason) => reason.clone(),
            Failure::SourceIsDirectory => "Path exits but is neither no file".to_owned(),
            Failure::SourceIsNeither => "Path exits but is neither file nor directory".to_owned(),
        }
    }
}

/// The place of the shared code `shared` of a category: below `root`, in the
/// directory of the category.
pub open spec fn source_path(root: Seq<char>, language: LanguageType, shared: Seq<char>) -> Seq<
    char,
> {
    root + language.directory() + shared
}

/// What the look at the source decides: a file is accepted, anything else is
/// refused, each for its own reason.
pub open spec fn source_verdict(probe: Result<SourceKind, String>) -> Result<(), Failure> {
    match probe {
        Ok(SourceKind::File) => Ok(()),
        Ok(SourceKind::Directory) => Err(Failure::SourceIsDirectory),
        Ok(SourceKind::Other) => Err(Failure::SourceIsNeither),
        Err(reason) => Err(Failure::SourceUnavailable(reason)),
    }
}

/// Picks the argument that names the shared code: the first one. Without
/// any argument there is nothing to copy.
pub fn shared_code_argument(args: &Vec<String>) -> (chosen: Result<&String, Failure>)
    ensures
        match chosen {
            Ok(shared) => args@.len() > 0 && *shared == args@[0],
            Err(failure) => args@.len() == 0 && failure is MissingArgument,
        },
{
    if args.len() < 1 {
        Err(Failure::MissingArgument)
    } else {
        Ok(&args[0])
    }
}

/// Builds the path of the shared code `shared` of a category below `root`.
/// Nothing is put between the parts: `root` brings its own last separator.
pub fn shared_code_path(root: &str, language: LanguageType, shared: &str) -> (path: String)
    ensures
        path@ == source_path(root@, language, shared@),
{
    let mut path = root.to_owned();
    path.append(language.subdirectory());
    path.append(shared);
    path
}

/// Decides from a look at the place of the shared code whether it is
/// copied. `probe` holds what lies there, or why that cannot be told.
pub fn check_source(probe: Result<SourceKind, String>) -> (verdict: Result<(), Failure>)
    ensures
        verdict == source_verdict(probe),
{
    match probe {
        Ok(SourceKind::File) => Ok(()),
        Ok(SourceKind::Directory) => Err(Failure::SourceIsDirectory),
        Ok(SourceKind::Other) => Err(Failure::SourceIsNeither),
        Err(reason) => Err(Failure::SourceUnavailable(reason)),
    }
}

} // verus!
