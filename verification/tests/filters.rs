use tint::pathset::PathSet;
use tint::profile::Profile;
use tint::resources::ResourcesDataFilter;

fn set_of(paths: &[&str]) -> PathSet {
    let mut s = PathSet::new();
    for p in paths {
        s.insert(p.to_string());
    }
    s
}

fn candidates() -> Vec<String> {
    vec![
        "a.tar.gz".to_string(),
        "b.zip".to_string(),
        "c.png".to_string(),
        "d.bin".to_string(),
    ]
}

#[test]
fn resource_filter_noop_when_disabled() {
    let profile = Profile::new(vec![], vec![], vec![], vec![], false, false);
    let f = ResourcesDataFilter::new(candidates(), &profile);
    let mut set = set_of(&["a.tar.gz", "b.zip", "c.png", "d.bin"]);
    f.filter(&mut set);
    assert_eq!(set.len(), 4);
    assert!(set.contains(&"a.tar.gz".to_string()));
    assert!(set.contains(&"b.zip".to_string()));
    assert!(set.contains(&"c.png".to_string()));
    assert!(set.contains(&"d.bin".to_string()));
}

#[test]
fn resource_filter_excludes_archives_and_images() {
    let profile = Profile::new(vec![], vec![], vec![], vec![], true, true);
    let f = ResourcesDataFilter::new(candidates(), &profile);
    let mut set = set_of(&["a.tar.gz", "b.zip", "c.png", "d.bin"]);
    f.filter(&mut set);
    assert_eq!(set.len(), 1);
    assert!(set.contains(&"d.bin".to_string()));
    assert!(!set.contains(&"a.tar.gz".to_string()));
    assert!(!set.contains(&"b.zip".to_string()));
    assert!(!set.contains(&"c.png".to_string()));
}

#[test]
fn resource_filter_archives_only() {
    let profile = Profile::new(vec![], vec![], vec![], vec![], true, false);
    let f = ResourcesDataFilter::new(candidates(), &profile);
    let mut set = set_of(&["a.tar.gz", "b.zip", "c.png", "d.bin"]);
    f.filter(&mut set);
    assert_eq!(set.len(), 2);
    assert!(set.contains(&"c.png".to_string()));
    assert!(set.contains(&"d.bin".to_string()));
}

#[test]
fn resource_filter_images_only() {
    let profile = Profile::new(vec![], vec![], vec![], vec![], false, true);
    let f = ResourcesDataFilter::new(candidates(), &profile);
    let mut set = set_of(&["a.tar.gz", "b.zip", "c.png", "d.bin"]);
    f.filter(&mut set);
    assert_eq!(set.len(), 3);
    assert!(!set.contains(&"c.png".to_string()));
}

#[test]
fn resource_filter_is_idempotent() {
    let profile = Profile::new(vec![], vec![], vec![], vec![], true, true);
    let f = ResourcesDataFilter::new(candidates(), &profile);
    let mut set = set_of(&["a.tar.gz", "b.zip", "c.png", "d.bin"]);
    f.filter(&mut set);
    let first = set.to_sorted_vec();
    f.filter(&mut set);
    let second = set.to_sorted_vec();
    assert_eq!(first, second);
}

#[test]
fn resource_filter_replaces_set_contents() {
    // The filter rebuilds the set from its construction-time candidates:
    // clear-then-extend, an atomic replace from the caller's view.
    let profile = Profile::new(vec![], vec![], vec![], vec![], false, false);
    let f = ResourcesDataFilter::new(vec!["x.bin".to_string()], &profile);
    let mut set = set_of(&["left-over"]);
    f.filter(&mut set);
    assert_eq!(set.len(), 1);
    assert!(set.contains(&"x.bin".to_string()));
    assert!(!set.contains(&"left-over".to_string()));
}

#[test]
fn pathset_insert_remove_contains() {
    let mut s = PathSet::new();
    assert_eq!(s.len(), 0);
    s.insert("/a".to_string());
    s.insert("/b".to_string());
    s.insert("/a".to_string());
    assert_eq!(s.len(), 2);
    assert!(s.contains(&"/a".to_string()));
    s.remove(&"/a".to_string());
    assert!(!s.contains(&"/a".to_string()));
    assert!(s.contains(&"/b".to_string()));
    s.remove(&"/never-there".to_string());
    assert_eq!(s.len(), 1);
}

#[test]
fn pathset_sorted_output() {
    let s = set_of(&["/z", "/a", "/m/x", "/m"]);
    let v = s.to_sorted_vec();
    assert_eq!(
        v,
        vec![
            "/a".to_string(),
            "/m".to_string(),
            "/m/x".to_string(),
            "/z".to_string()
        ]
    );
}

#[test]
fn partition_of_scanned_tree() {
    // The removal set is the scanned tree minus the keep set minus the
    // protected paths: disjoint from the keep set, and together with keep
    // and protected it covers the whole tree.
    let tree = [
        "/usr/bin/foo",
        "/usr/lib/libbar.so",
        "/usr/share/man/foo.1.gz",
        "/tmp/cache/x",
        "/var/lib/dpkg/status",
    ];
    let keep = vec!["/usr/bin/foo".to_string(), "/usr/lib/libbar.so".to_string()];
    let protected = vec!["/var/lib/dpkg/status".to_string()];
    let mut removal = set_of(&tree);
    removal.remove_vec(&keep);
    removal.remove_vec(&protected);
    assert_eq!(removal.len(), 2);
    for k in keep.iter() {
        assert!(!removal.contains(k));
    }
    for t in tree.iter() {
        let ts = t.to_string();
        assert!(keep.contains(&ts) || protected.contains(&ts) || removal.contains(&ts));
    }
}
