//! What can go wrong, and how it reads.

use crate::library::{path_views, LibraryPath, PathModel};
use crate::text::{bracketed, bracketed_text, signed_decimal, signed_text};
use vstd::prelude::*;

verus! {

/// A failure at the HIP libraries.
#[derive(Debug)]
pub enum Error {
    UnsupportedPlatform,
    LibraryNotFound { candidates: Vec<LibraryPath> },
    SymbolLoad { library: LibraryPath, symbol: &'static str, error: String },
    Api { api: &'static str, code: i32 },
}

/// A failure of the backend: one of the libraries', or one of its own.
#[derive(Debug)]
pub enum BackendError {
    Wrapped(Error),
    Msg(String),
}

/// The form in which `Debug` writes a path: in double quotes, with the
/// characters that need it escaped.
pub uninterp spec fn quoted_path(path: Seq<char>) -> Seq<char>;

/// `Debug` of `std::path::Path`, through `format!`: the text depends on the
/// path's text alone.
#[verifier::external_body]
fn quoted_path_text(path: &String) -> (text: String)
    ensures
        text@ == quoted_path(path@),
{
    format!("{:?}", std::path::Path::new(path))
}

impl Error {
    /// The paths that the message shows, in the order in which it shows them.
    pub open spec fn paths(self) -> Seq<PathModel> {
        match self {
            Error::LibraryNotFound { candidates } => path_views(candidates@),
            Error::SymbolLoad { library, .. } => seq![library@],
            _ => seq![],
        }
    }

    /// The message, where `shown` holds the text of each of `paths`.
    pub open spec fn message_text(self, shown: Seq<Seq<char>>) -> Seq<char> {
        match self {
            Error::UnsupportedPlatform => "HIP is not supported on this platform"@,
            Error::LibraryNotFound { .. } => "could not load HIP library from any of "@ + bracketed(
                shown.map_values(|p: Seq<char>| quoted_path(p)),
            ),
            Error::SymbolLoad { symbol, error, .. } => "failed to load symbol "@ + symbol@
                + " from "@ + shown[0] + ": "@ + error@,
            Error::Api { api, code } => api@ + " failed with HIP error code "@ + signed_decimal(
                code as int,
            ),
        }
    }

    /// The message for people, with the paths written as `shown` says.
    pub fn message_showing(&self, shown: &Vec<String>) -> (message: String)
        requires
            shown@.len() == self.paths().len(),
        ensures
            message@ == self.message_text(shown@.map_values(|s: String| s@)),
    {
        let ghost views = shown@.map_values(|s: String| s@);
        match self {
            Error::UnsupportedPlatform => "HIP is not supported on this platform".to_owned(),
            Error::LibraryNotFound { .. } => {
                let mut quoted: Vec<String> = Vec::new();
                let mut i: usize = 0;
                while i < shown.len()
                    invariant
                        i <= shown.len(),
                        quoted.len() == i,
                        forall|j: int|
                            0 <= j < i ==> (#[trigger] quoted@[j])@ == quoted_path(shown@[j]@),
                    decreases shown.len() - i,
                {
                    quoted.push(quoted_path_text(&shown[i]));
                    i += 1;
                }
                assert(quoted@.map_values(|s: String| s@) =~= views.map_values(
                    |p: Seq<char>| quoted_path(p),
                ));
                let mut message = "could not load HIP library from any of ".to_owned();
                message.append(bracketed_text(&quoted).as_str());
                message
            },
            Error::SymbolLoad { symbol, error, .. } => {
                let mut message = "failed to load symbol ".to_owned();
                message.append(symbol);
                message.append(" from ");
                message.append(shown[0].as_str());
                message.append(": ");
                message.append(error.as_str());
                message
            },
            Error::Api { api, code } => {
                let mut message = String::new();
                message.append(api);
                message.append(" failed with HIP error code ");
                message.append(signed_text(*code).as_str());
                assert(message@ =~= self.message_text(views));
                message
            },
        }
    }

    /// The message for people, with the paths written as the platform writes them.
    pub fn message(&self) -> (message: String)
        ensures
            exists|shown: Seq<Seq<char>>|
                {
                    &&& shown.len() == self.paths().len()
                    &&& forall|i: int|
                        0 <= i < shown.len() ==> self.paths()[i].reads(#[trigger] shown[i])
                    &&& message@ == #[trigger] self.message_text(shown)
                },
    {
        let mut shown: Vec<String> = Vec::new();
        match self {
            Error::LibraryNotFound { candidates } => {
                let mut i: usize = 0;
                while i < candidates.len()
                    invariant
                        *self matches Error::LibraryNotFound { candidates: c } && c == candidates,
                        i <= candidates.len(),
                        shown.len() == i,
                        forall|j: int|
                            0 <= j < i ==> self.paths()[j].reads((#[trigger] shown@[j])@),
                    decreases candidates.len() - i,
                {
                    shown.push(candidates[i].display());
                    i += 1;
                }
            },
            Error::SymbolLoad { library, .. } => {
                shown.push(library.display());
            },
            _ => {},
        }
        let message = self.message_showing(&shown);
        let ghost views = shown@.map_values(|s: String| s@);
        assert(message@ == self.message_text(views));
        message
    }
}

/// A failure at the HIP libraries, as a failure of the backend.
pub fn map_hip_err(err: Error) -> (wrapped: BackendError)
    ensures
        wrapped == BackendError::Wrapped(err),
{
    BackendError::Wrapped(err)
}

/// The paths that a message shows are those that the error holds.
pub proof fn law_shown_paths(error: Error)
    ensures
        match error {
            Error::LibraryNotFound { candidates } => error.paths().len() == candidates@.len()
                && forall|i: int|
                0 <= i < candidates@.len() ==> #[trigger] error.paths()[i] == candidates@[i]@,
            Error::SymbolLoad { library, .. } => error.paths().len() == 1 && error.paths()[0]
                == library@,
            _ => error.paths().len() == 0,
        },
{
}

/// A message tells what the error holds: the call and its status, the entry
/// point, its library and the reason, or every place in quotes and in order.
pub proof fn law_messages(error: Error, shown: Seq<Seq<char>>)
    requires
        shown.len() == error.paths().len(),
    ensures
        match error {
            Error::UnsupportedPlatform => error.message_text(shown)
                == "HIP is not supported on this platform"@,
            Error::LibraryNotFound { .. } => error.message_text(shown)
                == "could not load HIP library from any of "@ + bracketed(
                Seq::new(shown.len(), |i: int| quoted_path(shown[i])),
            ),
            Error::SymbolLoad { symbol, error: reason, .. } => error.message_text(shown)
                == "failed to load symbol "@ + symbol@ + " from "@ + shown[0] + ": "@ + reason@,
            Error::Api { api, code } => error.message_text(shown) == api@
                + " failed with HIP error code "@ + signed_decimal(code as int),
        },
{
    if error is LibraryNotFound {
        assert(shown.map_values(|p: Seq<char>| quoted_path(p)) =~= Seq::new(
            shown.len(),
            |i: int| quoted_path(shown[i]),
        ));
    }
}

} // verus!
