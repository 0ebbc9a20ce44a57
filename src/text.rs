use vstd::prelude::*;
use crate::error::Error;
use crate::key::{KeyView, ResourceKey};

verus! {

/// A text resource: the whole content of a file.
#[derive(Debug)]
pub struct FromFS(pub String);

/// `p` occurs in `s` as a run of consecutive characters.
pub open spec fn has_infix(s: Seq<char>, p: Seq<char>) -> bool {
    exists|i: int| 0 <= i && i + p.len() <= s.len() && #[trigger] s.subrange(i, i + p.len()) == p
}

/// Relies on str::contains with a `&str` pattern: true exactly when the
/// pattern matches a sub-slice of the string.
#[verifier::external_body]
fn str_contains(s: &str, pat: &str) -> (r: bool)
    ensures
        r == has_infix(s@, pat@),
{
    s.contains(pat)
}

impl FromFS {
    /// The path that must be read to load this resource from `key`. Only
    /// path keys can be served: a logical key is refused.
    pub fn source_path(key: &ResourceKey) -> (r: Result<String, Error>)
        ensures
            match key@ {
                KeyView::Path(p) => r matches Ok(s) && s@ == p,
                KeyView::Logical(_) => r matches Err(Error::CannotLoadFromLogical),
            },
    {
        match key {
            ResourceKey::Path(p) => Ok(p.clone()),
            ResourceKey::Logical(_) => Err(Error::CannotLoadFromLogical),
        }
    }

    /// Builds the resource from the outcome of opening and reading its file:
    /// the text read is kept exactly, and a failure to open becomes an I/O
    /// error carrying its cause.
    pub fn from_read(read: Result<String, String>) -> (r: Result<FromFS, Error>)
        ensures
            match read {
                Ok(text) => r matches Ok(res) && res.0@ == text@,
                Err(cause) => r matches Err(Error::IOError(c)) && c@ == cause@,
            },
    {
        match read {
            Ok(text) => Ok(FromFS(text)),
            Err(cause) => Err(Error::IOError(cause)),
        }
    }

    /// The text as it stands.
    pub fn text(&self) -> (r: &String)
        ensures
            r@ == self.0@,
    {
        &self.0
    }

    /// Whether the text asks for the drawing to be highlighted: it does when
    /// it holds the word `draw`.
    pub fn mentions_draw(&self) -> (r: bool)
        ensures
            r == has_infix(self.0@, "draw"@),
    {
        str_contains(self.0.as_str(), "draw")
    }
}

} // verus!
