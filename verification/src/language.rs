//! The language categories a project can be classified into, and the
//! markers that give each of them away.

use vstd::prelude::*;

verus! {

/// A language category. The declaration order is the precedence order used
/// where markers of several categories are met at once.
#[derive(Debug, Clone, Copy, PartialEq, Eq, Structural)]
pub enum LanguageType {
    Cpp,
    Rs,
    Py,
    Rb,
    Csharp,
}

/// The markers of a category, in the order in which they are tried. A marker
/// is at once an entry name that counts when an entry bears it, and an
/// extension that counts when a file has it.
pub open spec fn markers(language: LanguageType) -> Seq<Seq<char>> {
    match language {
        LanguageType::Cpp => seq![
            "CMakeLists.txt"@,
            "Makefile"@,
            "c"@,
            "cc"@,
            "cpp"@,
            "h"@,
            "hh"@,
            "hpp"@,
        ],
        LanguageType::Rs => seq!["Cargo.toml"@, "Cargo.lock"@, "rs"@],
        LanguageType::Py => seq![
            "__init__.py"@,
            "setup.py"@,
            "requirements.txt"@,
            "venv"@,
            "virtualenv"@,
            "py"@,
        ],
        LanguageType::Rb => seq!["Gemfile"@, "Gemfile.lock"@, "Rakefile"@, "rb"@],
        LanguageType::Csharp => seq![
            "Properties"@,
            "App.config"@,
            "Web.config"@,
            "csproj"@,
            "cs"@,
        ],
    }
}

/// `list` spells out the marker table `table`.
pub open spec fn spells(list: Seq<&'static str>, table: Seq<Seq<char>>) -> bool {
    list.len() == table.len() && forall|k: int| 0 <= k < list.len() ==> (#[trigger] list[k])@ == table[k]
}

impl LanguageType {
    /// Position of the category in the precedence order, 0 being the highest.
    pub open spec fn rank(self) -> nat {
        match self {
            LanguageType::Cpp => 0,
            LanguageType::Rs => 1,
            LanguageType::Py => 2,
            LanguageType::Rb => 3,
            LanguageType::Csharp => 4,
        }
    }

    /// Name of the directory that holds the category's shared code, with the
    /// separator that ends it.
    pub open spec fn directory(self) -> Seq<char> {
        match self {
            LanguageType::Cpp => "c-cpp/"@,
            LanguageType::Rs => "rs/"@,
            LanguageType::Py => "py/"@,
            LanguageType::Rb => "rb/"@,
            LanguageType::Csharp => "c#/"@,
        }
    }

    /// The markers of the category, in the order in which they are tried.
    pub fn marker_list(self) -> (list: Vec<&'static str>)
        ensures
            spells(list@, markers(self)),
    {
        match self {
            LanguageType::Cpp => vec![
                "CMakeLists.txt",
                "Makefile",
                "c",
                "cc",
                "cpp",
                "h",
                "hh",
                "hpp",
            ],
            LanguageType::Rs => vec!["Cargo.toml", "Cargo.lock", "rs"],
            LanguageType::Py => vec![
                "__init__.py",
                "setup.py",
                "requirements.txt",
                "venv",
                "virtualenv",
                "py",
            ],
            LanguageType::Rb => vec!["Gemfile", "Gemfile.lock", "Rakefile", "rb"],
            LanguageType::Csharp => vec!["Properties", "App.config", "Web.config", "csproj", "cs"],
        }
    }

    /// Name of the directory that holds the category's shared code, with the
    /// separator that ends it.
    pub fn subdirectory(self) -> (name: &'static str)
        ensures
            name@ == self.directory(),
    {
        match self {
            LanguageType::Cpp => "c-cpp/",
            LanguageType::Rs => "rs/",
            LanguageType::Py => "py/",
            LanguageType::Rb => "rb/",
            LanguageType::Csharp => "c#/",
        }
    }
}

} // verus!
