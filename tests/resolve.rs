use aurto::error::AurtoError;
use aurto::resolve::{
    aur_dependencies, contains_name, merge_dependency_lists, parse_package_list, resolve,
    DependencyQuery,
};

fn names(v: &[&str]) -> Vec<String> {
    v.iter().map(|s| s.to_string()).collect()
}

fn query(package: &str, output: Option<&str>) -> DependencyQuery {
    DependencyQuery { package: package.to_string(), output: output.map(|o| o.to_string()) }
}

#[test]
fn resolves_shared_dependency_in_first_seen_order() {
    let known = names(&["foo", "bar", "baz"]);
    let queries = vec![
        query("foo", Some("foo\tbar\n")),
        query("qux", Some("qux\tbar\nqux\tbaz\n")),
    ];
    let r = resolve(&queries, &known).unwrap();
    assert_eq!(r, names(&["bar", "baz"]));
}

#[test]
fn shared_dependency_appears_once() {
    let known = names(&["a", "b", "c"]);
    let queries = vec![query("a", Some("a\tc\n")), query("b", Some("b\tc\n"))];
    let r = resolve(&queries, &known).unwrap();
    assert_eq!(r.iter().filter(|x| x.as_str() == "c").count(), 1);
    assert_eq!(r, names(&["c"]));
}

#[test]
fn direct_dependency_is_included() {
    let known = names(&["libfoo", "app"]);
    let queries = vec![query("app", Some("app\tlibfoo\napp\tglibc\n"))];
    let r = resolve(&queries, &known).unwrap();
    assert!(r.contains(&"libfoo".to_string()));
    assert!(!r.contains(&"glibc".to_string()));
}

#[test]
fn no_aur_dependencies_resolves_empty() {
    let known = names(&["foo", "bar"]);
    let queries = vec![query("app", Some("app\tglibc\napp\tzlib\n"))];
    let r = resolve(&queries, &known).unwrap();
    assert!(r.is_empty());
}

#[test]
fn resolution_has_no_duplicates_and_only_known() {
    let known = names(&["d", "c", "b", "a"]);
    let queries = vec![
        query("x", Some("x\td\nx\tb\nx\tzz\nx\tb\n")),
        query("y", Some("y\tc\ny\ta\ny\td\n")),
    ];
    let r = resolve(&queries, &known).unwrap();
    assert_eq!(r, names(&["a", "b", "c", "d"]));
    for x in &r {
        assert!(known.contains(x));
    }
}

#[test]
fn self_dependency_is_included_once() {
    let known = names(&["foo"]);
    let queries = vec![query("foo", Some("foo\tfoo\nfoo\tfoo\n"))];
    assert_eq!(resolve(&queries, &known).unwrap(), names(&["foo"]));
}

#[test]
fn failed_query_fails_resolution() {
    let known = names(&["foo"]);
    let queries = vec![query("a", Some("a\tfoo\n")), query("b", None), query("c", None)];
    assert_eq!(
        resolve(&queries, &known),
        Err(AurtoError::DependencyQuery { package: "b".to_string() })
    );
}

#[test]
fn empty_request_resolves_empty() {
    let known = names(&["foo"]);
    assert_eq!(resolve(&Vec::new(), &known).unwrap(), Vec::<String>::new());
}

#[test]
fn package_list_keeps_nonempty_lines() {
    assert_eq!(parse_package_list("zeta\n\nalpha\nmid\n"), names(&["zeta", "alpha", "mid"]));
    assert!(parse_package_list("").is_empty());
}

#[test]
fn dependencies_are_filtered_and_sorted() {
    let known = names(&["zz", "aa", "mm"]);
    let r = aur_dependencies("p\tzz\np\tnotaur\np\taa\nnotab\np\tmm\textra\n", &known);
    assert_eq!(r, names(&["aa", "mm", "zz"]));
}

#[test]
fn merge_removes_repeats_across_lists() {
    let lists = vec![names(&["a", "c", "e"]), names(&["b", "c", "d"]), names(&["c"])];
    assert_eq!(merge_dependency_lists(lists), names(&["a", "b", "c", "d", "e"]));
}

#[test]
fn merge_of_nothing_is_empty() {
    assert!(merge_dependency_lists(Vec::new()).is_empty());
}

#[test]
fn contains_name_is_exact() {
    let v = names(&["foo", "Bar"]);
    assert!(contains_name(&v, &"foo".to_string()));
    assert!(!contains_name(&v, &"bar".to_string()));
    assert!(!contains_name(&v, &"fo".to_string()));
}
