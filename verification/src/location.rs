//! Where the attributes file is.

use crate::boundary::home_dir;
use std::path::PathBuf;
use vstd::prelude::*;

verus! {

/// The path that a location starts from.
#[derive(Debug, PartialEq, Eq)]
pub enum Base {
    /// A path as git printed it.
    Path(String),
    /// The user's home directory.
    Home(PathBuf),
}

/// A file: the names in `below`, adjoined in their order to `base`.
#[derive(Debug, PartialEq, Eq)]
pub struct Location {
    pub base: Base,
    pub below: Vec<String>,
}

/// What a `Base` stands for.
pub enum BaseView {
    Path(Seq<char>),
    Home(PathBuf),
}

/// What a `Location` stands for.
pub struct LocationView {
    pub base: BaseView,
    pub below: Seq<Seq<char>>,
}

impl View for Base {
    type V = BaseView;

    open spec fn view(&self) -> BaseView {
        match self {
            Base::Path(path) => BaseView::Path(path@),
            Base::Home(dir) => BaseView::Home(*dir),
        }
    }
}

impl View for Location {
    type V = LocationView;

    open spec fn view(&self) -> LocationView {
        LocationView { base: self.base@, below: self.below.deep_view() }
    }
}

impl DeepView for Location {
    type V = LocationView;

    open spec fn deep_view(&self) -> LocationView {
        self@
    }
}

/// The arguments of the git command whose answer locates the attributes
/// file: the configured `core.attributesFile` for the user's file, the git
/// directory for the repository's.
pub open spec fn query(global: bool) -> Seq<Seq<char>> {
    if global {
        seq!["config"@, "--global"@, "core.attributesFile"@]
    } else {
        seq!["rev-parse"@, "--git-dir"@]
    }
}

/// The attributes file, given git's `answer` to `query(global)`, without
/// the whitespace at its end, and the user's home directory, if there is
/// one. The repository's file is `info/attributes` in the git directory.
/// The user's file is the one that git is configured with, or else
/// `.gitattributes` in the home directory; without either there is none.
pub open spec fn location(global: bool, answer: Seq<char>, home: Option<PathBuf>) -> Option<
    LocationView,
> {
    if !global {
        Some(LocationView { base: BaseView::Path(answer), below: seq!["info"@, "attributes"@] })
    } else if answer.len() > 0 {
        Some(LocationView { base: BaseView::Path(answer), below: Seq::empty() })
    } else {
        match home {
            Some(dir) => Some(
                LocationView { base: BaseView::Home(dir), below: seq![".gitattributes"@] },
            ),
            None => None,
        }
    }
}

/// The arguments of the git command whose answer locates the attributes
/// file.
pub fn attributes_query(global: bool) -> (args: Vec<String>)
    ensures
        args.deep_view() == query(global),
{
    let mut args: Vec<String> = Vec::new();
    if global {
        args.push("config".to_owned());
        args.push("--global".to_owned());
        args.push("core.attributesFile".to_owned());
    } else {
        args.push("rev-parse".to_owned());
        args.push("--git-dir".to_owned());
    }
    assert(args.deep_view() =~= query(global));
    args
}

/// The attributes file, given git's `answer` to the query, without the
/// whitespace at its end, and the user's home directory.
pub fn locate_from(global: bool, answer: &str, home: Option<PathBuf>) -> (r: Option<Location>)
    ensures
        r.deep_view() == location(global, answer@, home),
{
    let mut below: Vec<String> = Vec::new();
    if !global {
        below.push("info".to_owned());
        below.push("attributes".to_owned());
        assert(below.deep_view() =~= seq!["info"@, "attributes"@]);
        Some(Location { base: Base::Path(answer.to_owned()), below })
    } else if !answer.is_empty() {
        assert(below.deep_view() =~= Seq::<Seq<char>>::empty());
        Some(Location { base: Base::Path(answer.to_owned()), below })
    } else {
        match home {
            Some(dir) => {
                below.push(".gitattributes".to_owned());
                assert(below.deep_view() =~= seq![".gitattributes"@]);
                Some(Location { base: Base::Home(dir), below })
            },
            None => None,
        }
    }
}

/// The attributes file, given git's `answer` to the query, without the
/// whitespace at its end. The home directory is asked for only where the
/// user's file is wanted and git is configured with none; whatever comes
/// back, the result is the location that belongs to it.
pub fn locate(global: bool, answer: &str) -> (r: Option<Location>)
    ensures
        exists|home: Option<PathBuf>| r.deep_view() == location(global, answer@, home),
        !global || answer@.len() > 0 ==> r is Some,
{
    let home = if global && answer.is_empty() {
        home_dir()
    } else {
        None
    };
    locate_from(global, answer, home)
}

} // verus!
