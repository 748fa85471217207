use tint::links::{ext_path, LinkMap};
use tint::pathset::PathSet;
use tint::pathstr::{
    file_name_of, parent_of, resolve_link, sort_paths, str_contains, str_ends_with, str_eq,
};

fn set_of(paths: &[&str]) -> PathSet {
    let mut s = PathSet::new();
    for p in paths {
        s.insert(p.to_string());
    }
    s
}

#[test]
fn parent_and_file_name() {
    assert_eq!(parent_of("/usr/bin/foo"), "/usr/bin");
    assert_eq!(parent_of("foo"), "");
    assert_eq!(file_name_of("/usr/bin/foo"), "foo");
    assert_eq!(file_name_of("foo"), "foo");
}

#[test]
fn resolve_relative_target_against_parent() {
    assert_eq!(
        resolve_link("/usr/bin/foo", "../lib/foo.real"),
        "/usr/lib/foo.real"
    );
    assert_eq!(resolve_link("/usr/bin/foo", "./bar"), "/usr/bin/bar");
    assert_eq!(resolve_link("/usr/bin/foo", "bar"), "/usr/bin/bar");
    assert_eq!(
        resolve_link("/usr/bin/foo", "../../lib/x"),
        "/lib/x"
    );
}

#[test]
fn resolve_absolute_target_stands() {
    assert_eq!(resolve_link("/usr/bin/foo", "/lib/x.so"), "/lib/x.so");
}

#[test]
fn closure_of_single_symlink() {
    let keep = set_of(&["/usr/bin/foo"]);
    let mut lm = LinkMap::new();
    lm.push("/usr/bin/foo".to_string(), "../lib/foo.real".to_string());
    let np = ext_path(&keep, &lm);
    assert_eq!(np.len(), 1);
    assert!(np.contains(&"/usr/lib/foo.real".to_string()));
}

#[test]
fn closure_ignores_links_outside_the_input() {
    let keep = set_of(&["/usr/bin/foo"]);
    let mut lm = LinkMap::new();
    lm.push("/usr/bin/other".to_string(), "../lib/other.real".to_string());
    let np = ext_path(&keep, &lm);
    assert_eq!(np.len(), 0);
}

#[test]
fn closure_does_not_chase_chains_through_absent_links() {
    // foo -> mid -> deep, but mid is not in the input set: only foo's own
    // target is added; the chain is not followed further.
    let keep = set_of(&["/usr/bin/foo"]);
    let mut lm = LinkMap::new();
    lm.push("/usr/bin/foo".to_string(), "/usr/bin/mid".to_string());
    lm.push("/usr/bin/mid".to_string(), "/usr/bin/deep".to_string());
    let np = ext_path(&keep, &lm);
    assert_eq!(np.len(), 1);
    assert!(np.contains(&"/usr/bin/mid".to_string()));
    assert!(!np.contains(&"/usr/bin/deep".to_string()));
}

#[test]
fn string_helpers() {
    assert!(str_ends_with("libz.so.1", ".1"));
    assert!(!str_ends_with("libz.so.1", ".so"));
    assert!(str_contains("libz.so.1", ".so."));
    assert!(!str_contains("libz.a", ".so."));
    assert!(str_eq("abc", "abc"));
    assert!(!str_eq("abc", "abd"));
    assert!(!str_eq("abc", "abcd"));
}

#[test]
fn sort_orders_lexicographically() {
    let v = vec![
        "/usr/share/man/foo.1.gz".to_string(),
        "/tmp/cache/x".to_string(),
    ];
    let sorted = sort_paths(v);
    assert_eq!(
        sorted,
        vec![
            "/tmp/cache/x".to_string(),
            "/usr/share/man/foo.1.gz".to_string()
        ]
    );
    let w = sort_paths(vec![
        "b".to_string(),
        "a/c".to_string(),
        "a".to_string(),
        "a".to_string(),
    ]);
    assert_eq!(
        w,
        vec![
            "a".to_string(),
            "a".to_string(),
            "a/c".to_string(),
            "b".to_string()
        ]
    );
}
