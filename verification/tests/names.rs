use fixtures::names::{assign, decimal, occurrences, sanitize, NameCounter};
use fixtures::order::{file_le_exec, sort_by_path};
use fixtures::resolver::DiscoveredFile;
use fixtures::text::{base_name, join_path, same_text, to_chars};

#[test]
fn sanitize_spells_dots_and_replaces_the_rest() {
    assert_eq!(sanitize("x.txt"), "x_dot_txt");
    assert_eq!(sanitize("file-1.ignore.txt"), "file_1_dot_ignore_dot_txt");
    assert_eq!(sanitize("a b"), "a_b");
    assert_eq!(sanitize("a_b"), "a_b");
    assert_eq!(sanitize("héllo"), "h_llo");
    assert_eq!(sanitize(""), "");
    assert_eq!(sanitize("ABC123"), "ABC123");
}

#[test]
fn decimal_writes_numbers() {
    assert_eq!(decimal(0), "0");
    assert_eq!(decimal(2), "2");
    assert_eq!(decimal(10), "10");
    assert_eq!(decimal(907), "907");
    assert_eq!(decimal(usize::MAX), usize::MAX.to_string());
}

#[test]
fn counter_counts_per_name() {
    let mut counter = NameCounter::new();
    assert_eq!(counter.bump("a"), 1);
    assert_eq!(counter.bump("b"), 1);
    assert_eq!(counter.bump("a"), 2);
    assert_eq!(counter.bump("a"), 3);
    assert_eq!(counter.bump("b"), 2);
}

#[test]
fn identifiers_follow_the_delivery_order() {
    let files = vec![
        DiscoveredFile::new("/r/sub1/x.txt"),
        DiscoveredFile::new("/r/y.txt"),
        DiscoveredFile::new("/r/sub2/x.txt"),
        DiscoveredFile::new("/r/sub3/x.txt"),
    ];
    assert_eq!(
        assign(&files),
        vec!["x_dot_txt", "y_dot_txt", "x_dot_txt_2", "x_dot_txt_3"]
    );
    let swapped = vec![
        DiscoveredFile::new("/r/sub2/x.txt"),
        DiscoveredFile::new("/r/sub1/x.txt"),
    ];
    assert_eq!(assign(&swapped), vec!["x_dot_txt", "x_dot_txt_2"]);
}

#[test]
fn discovered_file_knows_its_file_name() {
    let file = DiscoveredFile::new("/r/sub1/x.txt");
    assert_eq!(file.path(), "/r/sub1/x.txt");
    assert_eq!(file.file_name(), "x.txt");
}

#[test]
fn base_name_is_what_follows_the_last_separator() {
    assert_eq!(base_name("/a/b/c.txt"), "c.txt");
    assert_eq!(base_name("c.txt"), "c.txt");
    assert_eq!(base_name("/a/b/"), "");
    assert_eq!(base_name(""), "");
    assert_eq!(base_name("/a/ü.txt"), "ü.txt");
}

#[test]
fn join_path_takes_patterns_relative_to_the_directory() {
    assert_eq!(join_path("/work", "a/*.txt"), "/work/a/*.txt");
    assert_eq!(join_path("/work/", "a.txt"), "/work/a.txt");
    assert_eq!(join_path("/work", "/abs/a.txt"), "/abs/a.txt");
    assert_eq!(join_path("", "a.txt"), "a.txt");
    assert_eq!(join_path("/work", ""), "/work/");
}

#[test]
fn text_helpers_compare_and_split() {
    assert!(same_text("paths", "paths"));
    assert!(!same_text("paths", "path"));
    assert_eq!(to_chars("aé"), vec!['a', 'é']);
}

#[test]
fn sorting_by_path_gives_one_order_for_every_listing_order() {
    let paths = ["/r/b/x.txt", "/r/a/x.txt", "/r/a", "/r/a/x.txt.bak", "/r/B.txt"];
    let forward: Vec<DiscoveredFile> = paths.iter().map(|p| DiscoveredFile::new(p)).collect();
    let backward: Vec<DiscoveredFile> =
        paths.iter().rev().map(|p| DiscoveredFile::new(p)).collect();
    let expected = vec![
        "/r/B.txt",
        "/r/a",
        "/r/a/x.txt",
        "/r/a/x.txt.bak",
        "/r/b/x.txt",
    ];
    let sorted_forward = sort_by_path(forward);
    let sorted_backward = sort_by_path(backward);
    assert_eq!(
        sorted_forward.iter().map(|f| f.path()).collect::<Vec<_>>(),
        expected
    );
    assert_eq!(
        sorted_backward.iter().map(|f| f.path()).collect::<Vec<_>>(),
        expected
    );
    assert_eq!(assign(&sorted_forward), assign(&sorted_backward));
    assert_eq!(
        assign(&sorted_forward),
        vec!["B_dot_txt", "a", "x_dot_txt", "x_dot_txt_dot_bak", "x_dot_txt_2"]
    );
    assert!(file_le_exec(&sorted_forward[0], &sorted_forward[1]));
    assert!(!file_le_exec(&sorted_forward[1], &sorted_forward[0]));
    assert!(file_le_exec(&sorted_forward[1], &sorted_forward[1]));
    assert!(sort_by_path(vec![]).is_empty());
}

#[test]
fn occurrences_count_each_name_up_to_its_place() {
    let names: Vec<String> = ["a", "b", "a", "a", "c", "b"]
        .iter()
        .map(|n| n.to_string())
        .collect();
    assert_eq!(occurrences(&names), vec![1, 1, 2, 3, 1, 2]);
    assert!(occurrences(&vec![]).is_empty());
}
