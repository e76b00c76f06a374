//! What identifies a tool and a command alias.

use vstd::prelude::*;

verus! {

/// Whether `text` can stand as one name inside a path: it is not empty and
/// holds neither `/` nor `\`.
pub open spec fn is_name(text: Seq<char>) -> bool {
    &&& text.len() > 0
    &&& forall|i: int| 0 <= i < text.len() ==> text[i] != '/' && text[i] != '\\'
}

/// Tests [`is_name`].
pub fn check_name(text: &str) -> (ok: bool)
    ensures
        ok == is_name(text@),
{
    let mut clean = true;
    let mut any = false;
    for c in it: text.chars()
        invariant
            it.seq() == text@,
            any == (it.index() > 0),
            clean == forall|i: int| 0 <= i < it.index() ==> text@[i] != '/' && text@[i] != '\\',
    {
        any = true;
        if c == '/' || c == '\\' {
            clean = false;
        }
    }
    any && clean
}

/// A tool, identified by who publishes it, what it is called and which
/// version of it is meant.
#[derive(Debug, PartialEq, Eq)]
pub struct ToolSpec {
    pub author: String,
    pub name: String,
    pub version: String,
}

/// What a [`ToolSpec`] holds.
pub struct ToolSpecView {
    pub author: Seq<char>,
    pub name: Seq<char>,
    pub version: Seq<char>,
}

impl ToolSpecView {
    /// Author, name and version can each stand as one name inside a path.
    pub open spec fn well_formed(self) -> bool {
        is_name(self.author) && is_name(self.name) && is_name(self.version)
    }
}

impl View for ToolSpec {
    type V = ToolSpecView;

    open spec fn view(&self) -> ToolSpecView {
        ToolSpecView { author: self.author@, name: self.name@, version: self.version@ }
    }
}

impl Clone for ToolSpec {
    fn clone(&self) -> (copy: ToolSpec)
        ensures
            copy@ == self@,
    {
        ToolSpec {
            author: self.author.clone(),
            name: self.name.clone(),
            version: self.version.clone(),
        }
    }
}

impl ToolSpec {
    /// The tool `name` by `author`, at `version`.
    pub fn new(author: &str, name: &str, version: &str) -> (spec: ToolSpec)
        ensures
            spec@ == (ToolSpecView { author: author@, name: name@, version: version@ }),
    {
        ToolSpec { author: author.to_owned(), name: name.to_owned(), version: version.to_owned() }
    }

    /// Whether author, name and version can each stand as one name inside
    /// a path.
    pub fn is_well_formed(&self) -> (ok: bool)
        ensures
            ok == self@.well_formed(),
    {
        check_name(self.author.as_str()) && check_name(self.name.as_str()) && check_name(
            self.version.as_str(),
        )
    }

    /// Who publishes the tool.
    pub fn author(&self) -> (author: &str)
        ensures
            author@ == self@.author,
    {
        self.author.as_str()
    }

    /// What the tool is called.
    pub fn name(&self) -> (name: &str)
        ensures
            name@ == self@.name,
    {
        self.name.as_str()
    }

    /// Which version of the tool is meant.
    pub fn version(&self) -> (version: &str)
        ensures
            version@ == self@.version,
    {
        self.version.as_str()
    }
}

/// The name under which a tool is started from the command line.
#[derive(Debug, PartialEq, Eq)]
pub struct ToolAlias {
    pub name: String,
}

impl View for ToolAlias {
    type V = Seq<char>;

    open spec fn view(&self) -> Seq<char> {
        self.name@
    }
}

impl ToolAlias {
    /// The alias called `name`.
    pub fn new(name: &str) -> (alias: ToolAlias)
        ensures
            alias@ == name@,
    {
        ToolAlias { name: name.to_owned() }
    }

    /// What the alias is called.
    pub fn name(&self) -> (name: &str)
        ensures
            name@ == self@,
    {
        self.name.as_str()
    }
}

} // verus!
