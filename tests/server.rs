use duf::archive::{parent_step, unzip_step, upload_parent, zip_entry_name, ParentStep, UnzipStep};
use duf::auth::{auth_passes, credential_matches};
use duf::cache::{blank_free_in_quotes, check_fresh, decimal_string, file_etag, is_fresh};
use duf::dispatch::{dispatch, parse_query, search_term, Action, Method, PathState, Query};
use duf::listing::{
    classify, compare_items, matches_folded, name_matches, sort_items, to_pathitem, to_timestamp,
    PathItem, PathType,
};
use duf::pathres::{breadcrumb, extract_path, normalize_path, resolve};
use duf::service::{content_type, Config, InnerService};

fn parts(v: &[&str]) -> Vec<String> {
    v.iter().map(|s| s.to_string()).collect()
}

fn root() -> Vec<String> {
    parts(&["srv", "files"])
}

#[test]
fn plain_path_resolves_under_root() {
    assert_eq!(extract_path(&root(), "/a/b.txt"), Some(parts(&["srv", "files", "a", "b.txt"])));
    assert_eq!(extract_path(&root(), "/"), Some(root()));
    assert_eq!(extract_path(&root(), "/dir/"), Some(parts(&["srv", "files", "dir"])));
}

#[test]
fn traversal_is_rejected() {
    assert_eq!(extract_path(&root(), "/../etc/passwd"), None);
    assert_eq!(extract_path(&root(), "/a/../../files2"), None);
    assert_eq!(extract_path(&root(), "/%2e%2e/secret"), None);
    assert_eq!(extract_path(&root(), "/a/%2E%2E/%2E%2E/%2E%2E/etc"), None);
}

#[test]
fn absolute_injection_is_rejected() {
    assert_eq!(extract_path(&root(), "//etc/passwd"), None);
    assert_eq!(extract_path(&root(), "/%2Fetc%2Fpasswd"), None);
    assert_eq!(
        extract_path(&root(), "//srv/files/x"),
        Some(parts(&["srv", "files", "x"]))
    );
}

#[test]
fn traversal_inside_root_is_kept() {
    assert_eq!(extract_path(&root(), "/a/../b"), Some(parts(&["srv", "files", "b"])));
    assert_eq!(extract_path(&root(), "/./a//b/."), Some(parts(&["srv", "files", "a", "b"])));
}

#[test]
fn percent_decoding_applies() {
    assert_eq!(extract_path(&root(), "/a%20b"), Some(parts(&["srv", "files", "a b"])));
    assert_eq!(extract_path(&root(), "/%E2%82%AC"), Some(parts(&["srv", "files", "\u{20ac}"])));
    assert_eq!(extract_path(&root(), "/%ff"), None);
    assert_eq!(extract_path(&root(), "/a%zz"), Some(parts(&["srv", "files", "a%zz"])));
    assert_eq!(extract_path(&root(), "/b%4"), Some(parts(&["srv", "files", "b%4"])));
    assert_eq!(extract_path(&root(), "/%41%6a"), Some(parts(&["srv", "files", "Aj"])));
}

#[test]
fn resolve_of_decoded_path() {
    assert_eq!(resolve(&root(), "x/y"), Some(parts(&["srv", "files", "x", "y"])));
    assert_eq!(resolve(&root(), ".."), None);
    assert_eq!(resolve(&root(), "/srv/files"), Some(root()));
}

#[test]
fn paths_join_with_slashes() {
    assert_eq!(normalize_path(&parts(&["a", "b", "c.txt"])), "a/b/c.txt");
    assert_eq!(normalize_path(&parts(&[])), "");
    assert_eq!(breadcrumb(&root(), &parts(&["srv", "files", "docs"])), "files/docs");
    assert_eq!(breadcrumb(&root(), &root()), "files");
}

#[test]
fn no_credential_lets_everything_through() {
    for m in [Method::Get, Method::Put, Method::Delete, Method::Options, Method::Other] {
        assert!(auth_passes(None, None, false, m));
        assert!(auth_passes(None, Some("Basic bogus"), false, m));
    }
}

#[test]
fn basic_credential_is_checked() {
    let cred = Some("user:pass");
    assert!(auth_passes(cred, Some("Basic dXNlcjpwYXNz"), false, Method::Put));
    assert!(!auth_passes(cred, Some("Basic dXNlcjp3cm9uZw=="), false, Method::Get));
    assert!(!auth_passes(cred, Some("Bearer dXNlcjpwYXNz"), false, Method::Get));
    assert!(!auth_passes(cred, Some("Basic !!!"), false, Method::Get));
}

#[test]
fn anonymous_read_only_for_get() {
    let cred = Some("user:pass");
    assert!(auth_passes(cred, None, true, Method::Get));
    assert!(!auth_passes(cred, None, true, Method::Put));
    assert!(!auth_passes(cred, None, false, Method::Put));
    assert!(!auth_passes(cred, None, false, Method::Get));
}

#[test]
fn decoded_credential_compares_bytes() {
    assert!(credential_matches(&Some(b"user:pass".to_vec()), "user:pass"));
    assert!(!credential_matches(&Some(b"user:pas".to_vec()), "user:pass"));
    assert!(!credential_matches(&None, "user:pass"));
}

#[test]
fn queries_are_parsed() {
    assert_eq!(parse_query("zip"), Query::Zip);
    assert_eq!(parse_query("q=report"), Query::Search);
    assert_eq!(parse_query("unzip"), Query::Unzip);
    assert_eq!(parse_query(""), Query::Other);
    assert_eq!(parse_query("zipx"), Query::Other);
    assert_eq!(search_term("q=report"), Some("report".to_string()));
    assert_eq!(search_term("q="), Some(String::new()));
    assert_eq!(search_term("zip"), None);
}

#[test]
fn get_rows_of_the_table() {
    assert_eq!(dispatch(Method::Get, PathState::Dir, Query::Zip, false, false), Action::ZipDir);
    assert_eq!(dispatch(Method::Get, PathState::Dir, Query::Search, true, false), Action::SearchDir);
    assert_eq!(dispatch(Method::Get, PathState::File, Query::Zip, false, false), Action::SendFile);
    assert_eq!(
        dispatch(Method::Get, PathState::Missing, Query::Other, true, false),
        Action::ListDir { exists: false }
    );
    assert_eq!(
        dispatch(Method::Get, PathState::Dir, Query::Other, false, false),
        Action::ListDir { exists: true }
    );
    assert_eq!(
        dispatch(Method::Get, PathState::Missing, Query::Other, false, false),
        Action::ListDir { exists: false }
    );
}

#[test]
fn other_rows_of_the_table() {
    assert_eq!(dispatch(Method::Options, PathState::Missing, Query::Other, false, true), Action::NoContent);
    assert_eq!(
        dispatch(Method::Put, PathState::Missing, Query::Unzip, false, false),
        Action::Upload { unzip: true }
    );
    assert_eq!(
        dispatch(Method::Put, PathState::File, Query::Other, false, false),
        Action::Upload { unzip: false }
    );
    assert_eq!(dispatch(Method::Delete, PathState::Missing, Query::Other, false, false), Action::NotFound);
    assert_eq!(dispatch(Method::Other, PathState::File, Query::Other, false, false), Action::NotFound);
}

#[test]
fn readonly_refuses_writes() {
    for st in [PathState::File, PathState::Dir] {
        assert_eq!(dispatch(Method::Put, st, Query::Other, false, true), Action::Forbidden);
        assert_eq!(dispatch(Method::Put, st, Query::Unzip, false, true), Action::Forbidden);
        assert_eq!(dispatch(Method::Delete, st, Query::Other, false, true), Action::Forbidden);
    }
}

#[test]
fn delete_scope_follows_kind() {
    assert_eq!(
        dispatch(Method::Delete, PathState::Dir, Query::Other, false, false),
        Action::Delete { recursive: true }
    );
    assert_eq!(
        dispatch(Method::Delete, PathState::File, Query::Other, false, false),
        Action::Delete { recursive: false }
    );
}

#[test]
fn service_routes_with_its_config() {
    let svc = InnerService::new(Config {
        path: root(),
        auth: Some("user:pass".to_string()),
        no_auth_read: true,
        readonly: true,
        cors: false,
    });
    assert!(svc.auth_guard(Method::Get, None));
    assert!(!svc.auth_guard(Method::Put, None));
    assert_eq!(svc.route(Method::Put, PathState::File, "", "/a"), Action::Forbidden);
    assert_eq!(
        svc.route(Method::Get, PathState::Missing, "", "/new/"),
        Action::ListDir { exists: false }
    );
    assert_eq!(svc.route(Method::Get, PathState::Dir, "q=rep", "/d/"), Action::SearchDir);
    assert_eq!(svc.extract_path("/x"), Some(parts(&["srv", "files", "x"])));
    assert_eq!(svc.extract_path("/../x"), None);
}

#[test]
fn etag_is_mtime_and_size() {
    assert_eq!(file_etag(1000, 5), "\"1000-5\"");
    assert_eq!(file_etag(0, 0), "\"0-0\"");
    assert_eq!(file_etag(u64::MAX, 10), "\"18446744073709551615-10\"");
    assert_eq!(decimal_string(907), "907");
}

#[test]
fn matching_etag_is_fresh() {
    let v = check_fresh(Some("\"1650000000000-42\""), None, 1650000000000, 42);
    assert_eq!(v.etag, "\"1650000000000-42\"");
    assert!(v.fresh);
    let v = check_fresh(Some("\"1650000000000-42\""), None, 1650000000001, 42);
    assert!(!v.fresh);
    let v = check_fresh(Some("*"), None, 1, 2);
    assert!(v.fresh);
}

#[test]
fn none_match_takes_precedence() {
    let v = check_fresh(Some("\"other\""), Some("Thu, 01 Jan 2099 00:00:00 GMT"), 1000, 1);
    assert!(!v.fresh);
}

#[test]
fn modified_since_compares_seconds() {
    let v = check_fresh(None, Some("Thu, 01 Jan 1970 00:00:02 GMT"), 2999, 1);
    assert!(v.fresh);
    let v = check_fresh(None, Some("Thu, 01 Jan 1970 00:00:02 GMT"), 3000, 1);
    assert!(!v.fresh);
    let v = check_fresh(None, Some("not a date"), 1, 1);
    assert!(!v.fresh);
    let v = check_fresh(None, None, 1, 1);
    assert!(!v.fresh);
}

#[test]
fn freshness_table() {
    assert!(is_fresh(Some(false), Some(true)));
    assert!(!is_fresh(Some(true), Some(false)));
    assert!(is_fresh(None, Some(false)));
    assert!(!is_fresh(None, Some(true)));
    assert!(!is_fresh(None, None));
}

#[test]
fn search_is_case_insensitive() {
    let names = ["Report.TXT", "report_final.md", "notes.log"];
    let kept: Vec<&str> = names.iter().copied().filter(|n| name_matches(n, "report")).collect();
    assert_eq!(kept, vec!["Report.TXT", "report_final.md"]);
    assert!(name_matches("notes.log", ""));
    assert!(name_matches("ABC", "b"));
    assert!(!name_matches("ab", "abc"));
}

#[test]
fn folded_match_is_substring() {
    assert!(matches_folded("report_final.md", "final"));
    assert!(!matches_folded("report_final.md", "Final"));
    assert!(matches_folded("x", "x"));
    assert!(!matches_folded("", "x"));
}

fn item(t: PathType, name: &str, mtime: u64, size: Option<u64>) -> PathItem {
    PathItem { path_type: t, name: name.to_string(), mtime, size }
}

#[test]
fn listing_order() {
    let items = vec![
        item(PathType::File, "b", 1, Some(3)),
        item(PathType::SymlinkFile, "a", 1, Some(3)),
        item(PathType::Dir, "z", 9, None),
        item(PathType::File, "a", 2, Some(1)),
        item(PathType::File, "a", 1, Some(5)),
        item(PathType::SymlinkDir, "c", 0, None),
        item(PathType::File, "a", 1, None),
    ];
    let sorted = sort_items(items);
    let expected = vec![
        item(PathType::Dir, "z", 9, None),
        item(PathType::SymlinkDir, "c", 0, None),
        item(PathType::File, "a", 1, None),
        item(PathType::File, "a", 1, Some(5)),
        item(PathType::File, "a", 2, Some(1)),
        item(PathType::File, "b", 1, Some(3)),
        item(PathType::SymlinkFile, "a", 1, Some(3)),
    ];
    assert_eq!(sorted, expected);
    assert_eq!(sort_items(vec![]), vec![]);
}

#[test]
fn item_comparison() {
    let a = item(PathType::File, "B", 1, Some(1));
    let b = item(PathType::File, "a", 1, Some(1));
    assert_eq!(compare_items(&a, &b), -1);
    assert_eq!(compare_items(&b, &a), 1);
    assert_eq!(compare_items(&a, &a), 0);
    let c = item(PathType::File, "ab", 1, Some(1));
    let d = item(PathType::File, "a", 1, Some(1));
    assert_eq!(compare_items(&c, &d), 1);
}

#[test]
fn entries_are_classified() {
    assert_eq!(classify(true, true), PathType::SymlinkDir);
    assert_eq!(classify(false, true), PathType::Dir);
    assert_eq!(classify(true, false), PathType::SymlinkFile);
    assert_eq!(classify(false, false), PathType::File);
    let it = to_pathitem(&parts(&["sub", "b.txt"]), false, false, 77, 12);
    assert_eq!(it, item(PathType::File, "sub/b.txt", 77, Some(12)));
    let it = to_pathitem(&parts(&["sub"]), true, true, 5, 4096);
    assert_eq!(it, item(PathType::SymlinkDir, "sub", 5, None));
}

#[test]
fn timestamps_keep_low_bits() {
    assert_eq!(to_timestamp(1_650_000_000_123), 1_650_000_000_123);
    assert_eq!(to_timestamp((1u128 << 64) + 7), 7);
}

#[test]
fn archive_holds_regular_files_only() {
    let dir = parts(&["srv", "files", "d"]);
    let walked = [
        (parts(&["srv", "files", "d", "a.txt"]), true),
        (parts(&["srv", "files", "d", "sub"]), false),
        (parts(&["srv", "files", "d", "sub", "b.txt"]), true),
        (parts(&["srv", "files", "d", "link"]), false),
    ];
    let names: Vec<String> = walked
        .iter()
        .filter_map(|(p, regular)| zip_entry_name(&dir, p, *regular))
        .collect();
    assert_eq!(names, vec!["a.txt".to_string(), "sub/b.txt".to_string()]);
    assert_eq!(zip_entry_name(&dir, &dir, true), None);
    assert_eq!(zip_entry_name(&dir, &parts(&["srv", "other", "x"]), true), None);
}

#[test]
fn archive_entries_are_placed() {
    let dir = parts(&["srv", "files", "up"]);
    assert_eq!(unzip_step(&dir, "sub/"), UnzipStep::CreateDir(parts(&["srv", "files", "up", "sub"])));
    assert_eq!(
        unzip_step(&dir, "sub/b.txt"),
        UnzipStep::WriteFile(parts(&["srv", "files", "up", "sub", "b.txt"]))
    );
    assert_eq!(unzip_step(&dir, "../x"), UnzipStep::WriteFile(parts(&["srv", "files", "x"])));
    assert_eq!(unzip_step(&dir, "../../../evil"), UnzipStep::WriteFile(parts(&["evil"])));
    assert_eq!(unzip_step(&dir, "/etc/passwd"), UnzipStep::WriteFile(parts(&["etc", "passwd"])));
}

#[test]
fn blank_inside_quotes_is_malformed() {
    assert!(blank_free_in_quotes("\"a\", \"b\""));
    assert!(!blank_free_in_quotes("\"a b\""));
    assert!(!blank_free_in_quotes("W/\"a\tb\""));
    let v = check_fresh(Some("\"a b\""), Some("Thu, 01 Jan 1970 00:00:02 GMT"), 1000, 1);
    assert!(!v.fresh);
    let v = check_fresh(Some("\"a b\""), None, 1000, 1);
    assert!(!v.fresh);
    let v = check_fresh(Some("\"x\", \"1000-1\""), None, 1000, 1);
    assert!(v.fresh);
}

#[test]
fn upload_parent_decisions() {
    assert_eq!(upload_parent(&parts(&["srv", "a.txt"])), Some(parts(&["srv"])));
    assert_eq!(upload_parent(&parts(&[])), None);
    assert_eq!(parent_step(PathState::Dir), ParentStep::Ready);
    assert_eq!(parent_step(PathState::Missing), ParentStep::Create);
    assert_eq!(parent_step(PathState::File), ParentStep::Forbidden);
}

#[test]
fn content_type_from_extension() {
    assert_eq!(content_type(&parts(&["d", "page.html"])), Some("text/html".to_string()));
    assert_eq!(content_type(&parts(&["d", "README"])), None);
    assert_eq!(content_type(&parts(&[])), None);
}
