use std::cmp::Ordering;

use dust_node::extension::extension_counted;
use dust_node::node::{build_node, mode_size, node_with_extension, Metadata, Node};
use dust_node::text::compare_text;

fn names(list: &[&str]) -> Vec<String> {
    list.iter().map(|s| s.to_string()).collect()
}

fn leaf(name: &str, size: u64) -> Node {
    Node { name: name.to_string(), size, children: Vec::new(), inode_device: None }
}

const META: Metadata = (4096, Some((10, 1)));

#[test]
fn regular_file_takes_metadata() {
    let r = build_node("a.txt".to_string(), Vec::new(), &names(&[]), true, false, false, Some(META));
    let n = r.expect("metadata was given");
    assert_eq!(n.name, "a.txt");
    assert_eq!(n.size, 4096);
    assert!(n.children.is_empty());
    assert_eq!(n.inode_device, Some((10, 1)));
}

#[test]
fn unlisted_extension_zeroes_size() {
    let r = build_node("a.txt".to_string(), Vec::new(), &names(&["md"]), true, false, false, Some(META));
    let n = r.unwrap();
    assert_eq!(n.name, "a.txt");
    assert_eq!(n.size, 0);
    assert!(n.children.is_empty());
    assert_eq!(n.inode_device, Some((10, 1)));
}

#[test]
fn listed_extension_keeps_size() {
    let r = build_node("dir/a.txt".to_string(), Vec::new(), &names(&["md", "txt"]), true, false, false, Some(META));
    assert_eq!(r.unwrap().size, 4096);
}

#[test]
fn extension_match_is_case_sensitive() {
    let r = build_node("a.TXT".to_string(), Vec::new(), &names(&["txt"]), true, false, false, Some(META));
    assert_eq!(r.unwrap().size, 0);
}

#[test]
fn missing_extension_is_empty_text() {
    let kept = build_node("Makefile".to_string(), Vec::new(), &names(&[""]), true, false, false, Some(META));
    assert_eq!(kept.unwrap().size, 4096);
    let dropped = build_node("Makefile".to_string(), Vec::new(), &names(&["txt"]), true, false, false, Some(META));
    assert_eq!(dropped.unwrap().size, 0);
}

#[test]
fn symlink_outside_apparent_mode_counts_nothing() {
    let r = build_node("link".to_string(), Vec::new(), &names(&[]), false, true, false, Some((512, Some((10, 1)))));
    let n = r.unwrap();
    assert_eq!(n.size, 0);
    assert_eq!(n.inode_device, None);
}

#[test]
fn symlink_in_apparent_mode_keeps_size() {
    let r = build_node("link".to_string(), Vec::new(), &names(&[]), true, true, false, Some((512, Some((10, 1)))));
    let n = r.unwrap();
    assert_eq!(n.size, 512);
    assert_eq!(n.inode_device, Some((10, 1)));
}

#[test]
fn filecount_mode_counts_one() {
    let r = build_node("big.bin".to_string(), Vec::new(), &names(&[]), false, false, true, Some((1 << 40, Some((7, 2)))));
    let n = r.unwrap();
    assert_eq!(n.size, 1);
    assert_eq!(n.inode_device, Some((7, 2)));
}

#[test]
fn filecount_mode_wins_over_symlink_rule() {
    let r = build_node("link".to_string(), Vec::new(), &names(&[]), false, true, true, Some((512, Some((10, 1)))));
    let n = r.unwrap();
    assert_eq!(n.size, 1);
    assert_eq!(n.inode_device, Some((10, 1)));
}

#[test]
fn filecount_mode_still_filtered() {
    let r = build_node("a.txt".to_string(), Vec::new(), &names(&["md"]), false, false, true, Some(META));
    assert_eq!(r.unwrap().size, 0);
}

#[test]
fn missing_metadata_gives_none() {
    let r = build_node("gone".to_string(), vec![leaf("gone/x", 3)], &names(&[]), true, false, false, None);
    assert!(r.is_none());
}

#[test]
fn filtering_keeps_children() {
    let kids = vec![leaf("d/x.md", 3), leaf("d/y.txt", 4)];
    let r = build_node("d".to_string(), kids.clone(), &names(&["md"]), true, false, false, Some((100, None)));
    let n = r.unwrap();
    assert_eq!(n.size, 0);
    assert!(n.children == kids);
}

#[test]
fn node_with_extension_uses_given_extension() {
    let r = node_with_extension("a.txt".to_string(), "md", Vec::new(), &names(&["md"]), true, false, false, Some(META));
    assert_eq!(r.unwrap().size, 4096);
}

#[test]
fn mode_size_table() {
    assert_eq!(mode_size(META, true, false, false), META);
    assert_eq!(mode_size(META, false, false, false), META);
    assert_eq!(mode_size(META, false, true, false), (0, None));
    assert_eq!(mode_size(META, true, true, false), META);
    assert_eq!(mode_size(META, false, true, true), (1, Some((10, 1))));
    assert_eq!(mode_size((9, None), true, false, true), (1, None));
}

#[test]
fn allow_list_membership() {
    assert!(extension_counted(&names(&[]), "txt"));
    assert!(extension_counted(&names(&["md", "txt"]), "txt"));
    assert!(!extension_counted(&names(&["md"]), "txt"));
    assert!(!extension_counted(&names(&["tx"]), "txt"));
    assert!(!extension_counted(&names(&["txt"]), ""));
}

#[test]
fn order_by_size_then_path() {
    assert_eq!(leaf("z", 1).cmp(&leaf("a", 2)), Ordering::Less);
    assert_eq!(leaf("a", 2).cmp(&leaf("z", 1)), Ordering::Greater);
    assert_eq!(leaf("a", 5).cmp(&leaf("b", 5)), Ordering::Less);
    assert_eq!(leaf("b", 5).cmp(&leaf("a", 5)), Ordering::Greater);
    assert_eq!(leaf("a", 5).cmp(&leaf("a", 5)), Ordering::Equal);
    assert_eq!(leaf("a", 5).cmp(&leaf("ab", 5)), Ordering::Less);
    assert!(leaf("x", 1) < leaf("a", 2));
    assert_eq!(leaf("a", 5).partial_cmp(&leaf("b", 5)), Some(Ordering::Less));
}

#[test]
fn sorting_is_deterministic() {
    let mut v = vec![leaf("c", 2), leaf("b", 1), leaf("a", 2), leaf("d", 0)];
    v.sort_by(|a, b| a.cmp(b));
    let got: Vec<&str> = v.iter().map(|n| n.name.as_str()).collect();
    assert_eq!(got, vec!["d", "b", "a", "c"]);
}

#[test]
fn equality_ignores_identity() {
    let mut a = leaf("p", 3);
    let mut b = leaf("p", 3);
    a.inode_device = Some((1, 1));
    b.inode_device = Some((2, 2));
    assert!(a == b);
    assert!(leaf("p", 3) != leaf("p", 4));
    assert!(leaf("p", 3) != leaf("q", 3));
}

#[test]
fn equality_is_deep() {
    let a = Node { name: "d".to_string(), size: 1, children: vec![leaf("d/x", 2)], inode_device: None };
    let b = Node { name: "d".to_string(), size: 1, children: vec![leaf("d/x", 3)], inode_device: None };
    let c = Node { name: "d".to_string(), size: 1, children: vec![leaf("d/x", 2)], inode_device: None };
    let d = Node { name: "d".to_string(), size: 1, children: Vec::new(), inode_device: None };
    assert!(a != b);
    assert!(a == c);
    assert!(a != d);
}

#[test]
fn clone_copies_whole_tree() {
    let a = Node {
        name: "d".to_string(),
        size: 1,
        children: vec![leaf("d/x", 2), leaf("d/y", 5)],
        inode_device: Some((4, 4)),
    };
    let b = a.clone();
    assert!(a == b);
    assert_eq!(b.inode_device, Some((4, 4)));
    assert_eq!(b.children[1].name, "d/y");
}

#[test]
fn text_order() {
    assert_eq!(compare_text("", ""), Ordering::Equal);
    assert_eq!(compare_text("", "a"), Ordering::Less);
    assert_eq!(compare_text("b", "a"), Ordering::Greater);
    assert_eq!(compare_text("a-b", "a/b"), Ordering::Less);
    assert_eq!(compare_text("é", "z"), Ordering::Greater);
}
