use tint::dlst::{usize_to_string, ContentFormatter, EntryInfo};

fn entry(path: &str, size: u64) -> EntryInfo {
    EntryInfo {
        path: path.to_string(),
        size,
        is_dir: false,
        is_symlink: false,
        link_target: String::new(),
        executable: false,
    }
}

#[test]
fn junk_detection() {
    let data = Vec::new();
    let f = ContentFormatter::new(&data);
    assert!(f.is_potential_junk("notes.md"));
    assert!(f.is_potential_junk("bundle.tar"));
    assert!(f.is_potential_junk("util.c"));
    assert!(f.is_potential_junk("tool.1.gz"));
    assert!(f.is_potential_junk("README"));
    assert!(f.is_potential_junk("COPYING"));
    // Entirely-uppercase names count as doc stubs even when unknown.
    assert!(f.is_potential_junk("THANKS"));
    // A lowercase name is only junk through the tables; this one is not.
    assert!(!f.is_potential_junk("readme"));
    assert!(!f.is_potential_junk("libz.so"));
}

#[test]
fn dir_name_split() {
    let data = Vec::new();
    let f = ContentFormatter::new(&data);
    let (d, n) = f.dn(&entry("/usr/bin/foo", 1));
    assert_eq!(d, "/usr/bin");
    assert_eq!(n, "foo");
    let mut dir = entry("/usr/bin", 0);
    dir.is_dir = true;
    let (_, n) = f.dn(&dir);
    assert_eq!(n, "");
}

#[test]
fn decimal_rendering() {
    assert_eq!(usize_to_string(0), "0");
    assert_eq!(usize_to_string(7), "7");
    assert_eq!(usize_to_string(10), "10");
    assert_eq!(usize_to_string(42097), "42097");
}

#[test]
fn listing_shape_and_summary() {
    let data = vec![
        entry("/usr/bin/foo", 100),
        entry("/usr/bin/bar.md", 20),
        entry("/usr/lib/libz.so.1", 300),
    ];
    let mut f = ContentFormatter::new(&data);
    let lines = f.format();
    // One line per entry, group headers for the two directories, and the
    // closing summary.
    assert!(lines.len() >= data.len() + 1);
    assert!(lines.len() <= 3 * data.len() + 1);
    let last = lines.last().unwrap();
    assert!(last.starts_with("\nPreserved 3 files, taking space: "));
    assert!(last.ends_with("\n"));
}

#[test]
fn listing_of_symlink_mentions_target() {
    let mut link = entry("/usr/bin/foo", 0);
    link.is_symlink = true;
    link.link_target = "../lib/foo.real".to_string();
    let data = vec![link];
    let mut f = ContentFormatter::new(&data);
    let lines = f.format();
    assert!(lines.iter().any(|l| l.contains("../lib/foo.real")));
}
