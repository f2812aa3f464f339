//! The per-request decision: which response strategy a request gets, from
//! its method, the state of the resolved path and its query.
use vstd::prelude::*;

verus! {

broadcast use vstd::string::group_string_axioms;

/// The request methods the service tells apart.
#[derive(Debug, Clone, Copy, PartialEq, Eq, Structural)]
pub enum Method {
    Get,
    Options,
    Put,
    Delete,
    Other,
}

/// What the resolved path is on disk.
#[derive(Debug, Clone, Copy, PartialEq, Eq, Structural)]
pub enum PathState {
    Missing,
    File,
    Dir,
}

/// What the query string asks for.
#[derive(Debug, Clone, Copy, PartialEq, Eq, Structural)]
pub enum Query {
    /// `zip`: the directory as an archive.
    Zip,
    /// `q=<term>`: a recursive search by name.
    Search,
    /// `unzip`: extract an uploaded archive in place.
    Unzip,
    /// anything else, or no query.
    Other,
}

/// The response strategy chosen for a request.
#[derive(Debug, Clone, Copy, PartialEq, Eq, Structural)]
pub enum Action {
    /// Stream the directory's files as a ZIP archive.
    ZipDir,
    /// List the subtree's entries whose names hold the search term.
    SearchDir,
    /// Send the file, subject to its cache validators.
    SendFile,
    /// Render a listing: of the directory's entries if `exists`, else empty.
    ListDir { exists: bool },
    /// Succeed with no content.
    NoContent,
    /// Refuse with 403.
    Forbidden,
    /// Store the request body at the path, then extract it if `unzip`.
    Upload { unzip: bool },
    /// Remove the path: recursively if `recursive`.
    Delete { recursive: bool },
    /// Answer 404.
    NotFound,
}


/// `q` starts with `q=`.
pub open spec fn is_search(q: Seq<char>) -> bool {
    q.len() >= 2 && q[0] == 'q' && q[1] == '='
}

pub open spec fn query_spec(q: Seq<char>) -> Query {
    if q == seq!['z', 'i', 'p'] {
        Query::Zip
    } else if is_search(q) {
        Query::Search
    } else if q == seq!['u', 'n', 'z', 'i', 'p'] {
        Query::Unzip
    } else {
        Query::Other
    }
}

fn chars_equal(s: &str, word: &str) -> (r: bool)
    ensures
        r == (s@ == word@),
{
    let n = s.unicode_len();
    if n != word.unicode_len() {
        return false;
    }
    let mut i: usize = 0;
    while i < n
        invariant
            n == s@.len() == word@.len(),
            i <= n,
            forall|k: int| 0 <= k < i ==> s@[k] == word@[k],
        decreases n - i,
    {
        if s.get_char(i) != word.get_char(i) {
            return false;
        }
        i = i + 1;
    }
    assert(s@ =~= word@);
    true
}

/// What a query string asks for.
pub fn parse_query(q: &str) -> (r: Query)
    ensures
        r == query_spec(q@),
{
    proof {
        reveal_strlit("zip");
        reveal_strlit("unzip");
        assert("zip"@ =~= seq!['z', 'i', 'p']);
        assert("unzip"@ =~= seq!['u', 'n', 'z', 'i', 'p']);
    }
    if chars_equal(q, "zip") {
        Query::Zip
    } else if q.unicode_len() >= 2 && q.get_char(0) == 'q' && q.get_char(1) == '=' {
        Query::Search
    } else if chars_equal(q, "unzip") {
        Query::Unzip
    } else {
        Query::Other
    }
}

/// The search term of a `q=<term>` query: what follows `q=`.
pub fn search_term(q: &str) -> (r: Option<String>)
    ensures
        r.is_some() == is_search(q@),
        r.is_some() ==> r.unwrap()@ == q@.subrange(2, q@.len() as int),
{
    let n = q.unicode_len();
    if n >= 2 && q.get_char(0) == 'q' && q.get_char(1) == '=' {
        Some(q.substring_char(2, n).to_owned())
    } else {
        None
    }
}

/// The dispatch table; the first row that matches wins.
pub open spec fn dispatch_spec(
    method: Method,
    state: PathState,
    query: Query,
    trailing_slash: bool,
    readonly: bool,
) -> Action {
    match method {
        Method::Get => if state == PathState::Dir && query == Query::Zip {
            Action::ZipDir
        } else if state == PathState::Dir && query == Query::Search {
            Action::SearchDir
        } else if state == PathState::File {
            Action::SendFile
        } else if state == PathState::Missing && trailing_slash {
            Action::ListDir { exists: false }
        } else {
            Action::ListDir { exists: state == PathState::Dir }
        },
        Method::Options => Action::NoContent,
        Method::Put => if readonly {
            Action::Forbidden
        } else {
            Action::Upload { unzip: query == Query::Unzip }
        },
        Method::Delete => if state == PathState::Missing {
            Action::NotFound
        } else if readonly {
            Action::Forbidden
        } else {
            Action::Delete { recursive: state == PathState::Dir }
        },
        Method::Other => Action::NotFound,
    }
}

/// Chooses the response strategy of a request whose path resolved, from
/// its method, the state of the path, its query, whether the request path
/// ends in `/`, and whether the service is read-only.
pub fn dispatch(method: Method, state: PathState, query: Query, trailing_slash: bool, readonly: bool) -> (r: Action)
    ensures
        r == dispatch_spec(method, state, query, trailing_slash, readonly),
{
    match method {
        Method::Get => {
            if state == PathState::Dir && query == Query::Zip {
                Action::ZipDir
            } else if state == PathState::Dir && query == Query::Search {
                Action::SearchDir
            } else if state == PathState::File {
                Action::SendFile
            } else if state == PathState::Missing && trailing_slash {
                Action::ListDir { exists: false }
            } else {
                Action::ListDir { exists: state == PathState::Dir }
            }
        },
        Method::Options => Action::NoContent,
        Method::Put => {
            if readonly {
                Action::Forbidden
            } else {
                Action::Upload { unzip: query == Query::Unzip }
            }
        },
        Method::Delete => {
            if state == PathState::Missing {
                Action::NotFound
            } else if readonly {
                Action::Forbidden
            } else {
                Action::Delete { recursive: state == PathState::Dir }
            }
        },
        Method::Other => Action::NotFound,
    }
}

/// In read-only mode no request writes: a PUT or a DELETE of an existing
/// path is refused, whatever its query, and nothing else uploads or deletes.
pub proof fn lemma_readonly_never_writes(method: Method, state: PathState, query: Query, trailing_slash: bool)
    ensures
        (method == Method::Put || (method == Method::Delete && state != PathState::Missing))
            ==> dispatch_spec(method, state, query, trailing_slash, true) == Action::Forbidden,
        !(dispatch_spec(method, state, query, trailing_slash, true) is Upload),
        !(dispatch_spec(method, state, query, trailing_slash, true) is Delete),
{
}

/// A DELETE that is carried out removes a directory's whole subtree, and a
/// file alone.
pub proof fn lemma_delete_scope(state: PathState, query: Query, trailing_slash: bool)
    ensures
        state == PathState::Dir ==> dispatch_spec(Method::Delete, state, query, trailing_slash, false)
            == (Action::Delete { recursive: true }),
        state == PathState::File ==> dispatch_spec(Method::Delete, state, query, trailing_slash, false)
            == (Action::Delete { recursive: false }),
{
}

} // verus!
