//! The service: its configuration and the decisions it makes per request.
use vstd::prelude::*;
use crate::auth::{auth_passes, auth_spec};
use crate::dispatch::{dispatch, dispatch_spec, parse_query, query_spec, Action, Method, PathState};
use crate::pathres::{extract_path, percent_decoded, resolve_spec, segs};

verus! {

/// The media type registered for a file name's extension, if any.
pub uninterp spec fn mime_of(name: Seq<char>) -> Option<Seq<char>>;

/// Relies on `mime_guess::from_path(..).first_raw()`: the first media type
/// known for the name's extension; a name without a `.` has no extension.
#[verifier::external_body]
fn guess_mime(name: &str) -> (r: Option<String>)
    ensures
        r.is_some() == mime_of(name@).is_some(),
        r.is_some() ==> r.unwrap()@ == mime_of(name@).unwrap(),
        (forall|i: int| 0 <= i < name@.len() ==> name@[i] != '.') ==> r.is_none(),
{
    mime_guess::from_path(name).first_raw().map(|m| m.to_owned())
}

/// The `Content-Type` to send with a file, guessed from its name.
pub fn content_type(path: &Vec<String>) -> (r: Option<String>)
    ensures
        path@.len() == 0 ==> r.is_none(),
        path@.len() > 0 ==> r.is_some() == mime_of(path@.last()@).is_some()
            && (r.is_some() ==> r.unwrap()@ == mime_of(path@.last()@).unwrap()),
{
    if path.len() == 0 {
        return None;
    }
    guess_mime(path[path.len() - 1].as_str())
}

/// The service's configuration, fixed for its lifetime.
pub struct Config {
    /// The served directory, as the components of an absolute path.
    pub path: Vec<String>,
    /// The single `user:pass` credential, if any.
    pub auth: Option<String>,
    /// Whether a GET without credentials passes when a credential is set.
    pub no_auth_read: bool,
    /// Whether uploads and deletions are refused.
    pub readonly: bool,
    /// Whether responses carry permissive CORS headers.
    pub cors: bool,
}

/// The request handler's shared state.
pub struct InnerService {
    pub args: Config,
}

impl InnerService {
    pub fn new(args: Config) -> (r: Self)
        ensures
            r.args == args,
    {
        Self { args }
    }

    /// Whether a request passes the auth guard.
    pub fn auth_guard(&self, method: Method, authorization: Option<&str>) -> (r: bool)
        ensures
            r == auth_spec(
                match self.args.auth {
                    Some(c) => Some(c@),
                    None => None,
                },
                match authorization {
                    Some(h) => Some(h@),
                    None => None,
                },
                self.args.no_auth_read,
                method,
            ),
    {
        let credential = match &self.args.auth {
            Some(c) => Some(c.as_str()),
            None => None,
        };
        auth_passes(credential, authorization, self.args.no_auth_read, method)
    }

    /// Resolves a request path under the served directory.
    pub fn extract_path(&self, path: &str) -> (r: Option<Vec<String>>)
        ensures
            ({
                let rest = if path@.len() > 0 { path@.drop_first() } else { path@ };
                match percent_decoded(rest) {
                    None => r.is_none(),
                    Some(d) => r.is_some() == resolve_spec(segs(self.args.path@), d).is_some()
                        && (r.is_some() ==> segs(r.unwrap()@) == resolve_spec(segs(self.args.path@), d).unwrap()),
                }
            }),
    {
        extract_path(&self.args.path, path)
    }

    /// The strategy for a request whose path resolved, given what the path
    /// is on disk, the query string and the request path.
    pub fn route(&self, method: Method, state: PathState, query: &str, path: &str) -> (r: Action)
        ensures
            r == dispatch_spec(
                method,
                state,
                query_spec(query@),
                path@.len() > 0 && path@[path@.len() - 1] == '/',
                self.args.readonly,
            ),
    {
        let n = path.unicode_len();
        let trailing = n > 0 && path.get_char(n - 1) == '/';
        dispatch(method, state, parse_query(query), trailing, self.args.readonly)
    }
}

} // verus!
