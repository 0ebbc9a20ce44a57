use vstd::prelude::*;

verus! {

/// Why a resource could not be loaded.
#[derive(Debug)]
pub enum Error {
    /// The resource type cannot be read from the file system.
    CannotLoadFromFS,
    /// The resource type cannot be built from a logical key.
    CannotLoadFromLogical,
    /// Opening or reading the file failed; the cause is kept as text.
    IOError(String),
}

pub open spec fn io_error_text(cause: Seq<char>) -> Seq<char> {
    "IO error: "@ + cause
}

impl Error {
    /// The message shown to a person for this error.
    pub fn message(&self) -> (r: String)
        ensures
            match self {
                Error::CannotLoadFromFS => r@ == "cannot load from file system"@,
                Error::CannotLoadFromLogical => r@ == "cannot load from logical"@,
                Error::IOError(cause) => r@ == io_error_text(cause@),
            },
    {
        match self {
            Error::CannotLoadFromFS => "cannot load from file system".to_owned(),
            Error::CannotLoadFromLogical => "cannot load from logical".to_owned(),
            Error::IOError(cause) => "IO error: ".to_owned().concat(cause.as_str()),
        }
    }

    pub fn is_unsupported_key(&self) -> (r: bool)
        ensures
            r == (self is CannotLoadFromLogical || self is CannotLoadFromFS),
    {
        match self {
            Error::IOError(_) => false,
            _ => true,
        }
    }
}

} // verus!
