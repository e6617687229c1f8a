use fixtures::descriptor::{describe, find_collision, TestDescriptor};
use fixtures::error::{Field, GrammarError, GrammarErrorKind};
use fixtures::ignore_matcher::IgnoreMatcher;
use fixtures::lexer::lex;
use fixtures::resolver::DiscoveredFile;
use fixtures::token::Delimiter;
use fixtures::location::SourceLocation;
use fixtures::parse::args::Args;
use fixtures::parse::parse_str;
use fixtures::utils::attribute::{AttrStyle, Attribute, AttributePath, Meta};
use fixtures::{fixtures, FixturesError};

fn test_attribute() -> Attribute {
    Attribute {
        style: AttrStyle::Outer,
        meta: Meta::Path(AttributePath {
            leading_colon: false,
            segments: vec!["test".to_string()],
        }),
        span: SourceLocation::new(0, 1),
    }
}

fn listing(paths: &[&str]) -> Vec<String> {
    paths.iter().map(|p| p.to_string()).collect()
}

fn run(input: &str, files: &[&str]) -> Result<Vec<TestDescriptor>, FixturesError> {
    let args: Args = parse_str(input).expect("arguments should parse");
    fixtures(&args, &vec![test_attribute()], "/work", &listing(files))
}

fn find<'a>(descriptors: &'a [TestDescriptor], path: &str) -> &'a TestDescriptor {
    descriptors
        .iter()
        .find(|d| d.source_path == path)
        .expect("a descriptor for the path")
}

#[test]
fn two_includes_without_ignore_give_two_plain_descriptors() {
    let descriptors = run(
        r#"["a.txt", "b.txt"]"#,
        &["/work/a.txt", "/work/b.txt", "/work/c.md"],
    )
    .unwrap();
    assert_eq!(descriptors.len(), 2);
    assert_eq!(descriptors[0].identifier, "a_dot_txt");
    assert_eq!(descriptors[0].source_path, "/work/a.txt");
    assert!(!descriptors[0].ignored);
    assert_eq!(descriptors[0].reason, None);
    assert_eq!(descriptors[1].identifier, "b_dot_txt");
    assert_eq!(descriptors[1].source_path, "/work/b.txt");
    assert!(!descriptors[1].ignored);
    assert_eq!(descriptors[1].reason, None);
}

#[test]
fn string_ignore_flags_the_file_without_reason() {
    let descriptors = run(
        r#"["*.txt"], ignore = "b.txt""#,
        &["/work/a.txt", "/work/b.txt"],
    )
    .unwrap();
    assert_eq!(descriptors.len(), 2);
    let a = find(&descriptors, "/work/a.txt");
    assert!(!a.ignored);
    let b = find(&descriptors, "/work/b.txt");
    assert!(b.ignored);
    assert_eq!(b.reason, None);
}

#[test]
fn default_reason_reaches_an_entry_of_the_list() {
    let descriptors = run(
        r#"["*.txt"], ignore = {paths = ["b.txt"], reason = "flaky"}"#,
        &["/work/a.txt", "/work/b.txt"],
    )
    .unwrap();
    let b = find(&descriptors, "/work/b.txt");
    assert!(b.ignored);
    assert_eq!(b.reason, Some("flaky".to_string()));
    let a = find(&descriptors, "/work/a.txt");
    assert!(!a.ignored);
    assert_eq!(a.reason, None);
}

#[test]
fn entry_reason_goes_before_the_default_reason() {
    let descriptors = run(
        r#"["*.txt"], ignore = {paths = [{path = "b.txt", reason = "specific"}], reason = "default"}"#,
        &["/work/a.txt", "/work/b.txt"],
    )
    .unwrap();
    let b = find(&descriptors, "/work/b.txt");
    assert!(b.ignored);
    assert_eq!(b.reason, Some("specific".to_string()));
}

#[test]
fn entry_without_reason_falls_back_to_the_default_reason() {
    let descriptors = run(
        r#"["*.txt"], ignore = {paths = [{path = "c.txt"}], reason = "default"}"#,
        &["/work/a.txt", "/work/c.txt"],
    )
    .unwrap();
    let c = find(&descriptors, "/work/c.txt");
    assert!(c.ignored);
    assert_eq!(c.reason, Some("default".to_string()));
}

#[test]
fn files_of_one_name_are_numbered_in_delivery_order() {
    let descriptors = run(
        r#"["**/*.txt"]"#,
        &["/work/sub1/x.txt", "/work/sub2/x.txt"],
    )
    .unwrap();
    assert_eq!(descriptors.len(), 2);
    assert_eq!(descriptors[0].identifier, "x_dot_txt");
    assert_eq!(descriptors[0].source_path, "/work/sub1/x.txt");
    assert_eq!(descriptors[1].identifier, "x_dot_txt_2");
    assert_eq!(descriptors[1].source_path, "/work/sub2/x.txt");
}

#[test]
fn ignoring_never_removes_a_descriptor() {
    let files = ["/work/a.txt", "/work/b.txt", "/work/c.txt"];
    let plain = run(r#"["*.txt"]"#, &files).unwrap();
    let ignoring = run(r#"["*.txt"], ignore = ["*.txt"]"#, &files).unwrap();
    assert_eq!(plain.len(), 3);
    assert_eq!(ignoring.len(), 3);
    assert!(ignoring.iter().all(|d| d.ignored));
    assert!(plain.iter().all(|d| !d.ignored));
}

#[test]
fn the_same_listing_gives_the_same_descriptors() {
    let files = ["/work/b.txt", "/work/a.txt", "/work/sub/a.txt"];
    let first = run(r#"["**/*.txt"], ignore = "b.txt""#, &files).unwrap();
    let second = run(r#"["**/*.txt"], ignore = "b.txt""#, &files).unwrap();
    assert_eq!(first.len(), second.len());
    for (x, y) in first.iter().zip(second.iter()) {
        assert_eq!(x.identifier, y.identifier);
        assert_eq!(x.source_path, y.source_path);
        assert_eq!(x.ignored, y.ignored);
        assert_eq!(x.reason, y.reason);
    }
}

#[test]
fn exclusion_filters_whatever_the_order() {
    let files = ["/work/a.txt", "/work/a.skip.txt"];
    let after = run(r#"["*.txt", "!*.skip.txt"]"#, &files).unwrap();
    let before = run(r#"["!*.skip.txt", "*.txt"]"#, &files).unwrap();
    assert_eq!(after.len(), 1);
    assert_eq!(after[0].source_path, "/work/a.txt");
    assert_eq!(before.len(), 1);
    assert_eq!(before[0].source_path, "/work/a.txt");
}

#[test]
fn no_selected_file_is_an_error_at_the_patterns() {
    let result = run(r#"["*.txt"]"#, &["/work/a.md"]);
    match result {
        Err(FixturesError::NoFiles(span)) => assert_eq!(span, SourceLocation::new(0, 9)),
        other => panic!("unexpected outcome: {:?}", other),
    }
}

#[test]
fn invalid_include_pattern_aborts_with_pattern_and_location() {
    let result = run(r#"["a.txt", "[b.txt"]"#, &["/work/a.txt"]);
    match result {
        Err(FixturesError::Pattern(e)) => {
            assert_eq!(e.pattern(), "/work/[b.txt");
            assert_eq!(e.span(), SourceLocation::new(10, 18));
            assert!(!e.message().is_empty());
        }
        other => panic!("unexpected outcome: {:?}", other),
    }
}

#[test]
fn invalid_ignore_pattern_aborts_with_pattern_and_location() {
    let result = run(r#"["*.txt"], ignore = ["{b.txt"]"#, &["/work/a.txt"]);
    match result {
        Err(FixturesError::Pattern(e)) => {
            assert_eq!(e.pattern(), "/work/{b.txt");
            assert_eq!(e.span(), SourceLocation::new(21, 29));
        }
        other => panic!("unexpected outcome: {:?}", other),
    }
}

#[test]
fn ignore_on_a_function_that_is_no_test_is_an_error() {
    let args: Args = parse_str(r#"["*.txt"], ignore = []"#).unwrap();
    let result = fixtures(&args, &vec![], "/work", &listing(&["/work/a.txt"]));
    match result {
        Err(FixturesError::IgnoreOutsideTest(span)) => {
            assert_eq!(span, SourceLocation::new(20, 22))
        }
        other => panic!("unexpected outcome: {:?}", other),
    }
}

#[test]
fn empty_ignore_list_is_not_an_absent_one() {
    let absent: Args = parse_str(r#"["*.txt"]"#).unwrap();
    let empty: Args = parse_str(r#"["*.txt"], ignore = []"#).unwrap();
    assert!(absent.ignore().is_none());
    assert!(empty.ignore().is_some());
    let files = listing(&["/work/a.txt"]);
    assert!(fixtures(&absent, &vec![], "/work", &files).is_ok());
    assert!(fixtures(&empty, &vec![], "/work", &files).is_err());
    let descriptors = fixtures(&empty, &vec![test_attribute()], "/work", &files).unwrap();
    assert_eq!(descriptors.len(), 1);
    assert!(!descriptors[0].ignored);
}

#[test]
fn colliding_identifiers_are_reported() {
    let result = run(
        r#"["**/*"]"#,
        &["/work/x_2", "/work/a/x", "/work/b/x"],
    );
    match result {
        Err(FixturesError::DuplicateIdentifier(identifier)) => assert_eq!(identifier, "x_2"),
        other => panic!("unexpected outcome: {:?}", other),
    }
}

fn ignore_attribute(arguments: &str) -> Attribute {
    Attribute {
        style: AttrStyle::Outer,
        meta: Meta::List {
            path: AttributePath {
                leading_colon: false,
                segments: vec!["fixtures".to_string(), "ignore".to_string()],
            },
            delimiter: Delimiter::Parenthesis,
            delimiter_span: SourceLocation::new(0, 0),
            tokens: lex(arguments).unwrap(),
        },
        span: SourceLocation::new(0, 0),
    }
}

#[test]
fn ignore_attributes_flag_files_too() {
    let args: Args = parse_str(r#"["*.txt"], ignore = { paths = "a.txt", reason = "config" }"#)
        .unwrap();
    let attrs = vec![
        test_attribute(),
        ignore_attribute(r#"paths = "*.txt", reason = "attribute""#),
    ];
    let files = listing(&["/work/a.txt", "/work/b.txt"]);
    let descriptors = fixtures(&args, &attrs, "/work", &files).unwrap();
    assert_eq!(descriptors.len(), 2);
    assert_eq!(descriptors[0].reason, Some("config".to_string()));
    assert_eq!(descriptors[1].reason, Some("attribute".to_string()));
    assert!(descriptors[0].ignored && descriptors[1].ignored);

    let plain: Args = parse_str(r#"["*.txt"]"#).unwrap();
    let only_attribute = vec![ignore_attribute(r#""b.txt""#)];
    let descriptors = fixtures(&plain, &only_attribute, "/work", &files).unwrap();
    assert!(!descriptors[0].ignored);
    assert!(descriptors[1].ignored);
    assert_eq!(descriptors[1].reason, None);
}

#[test]
fn malformed_ignore_attribute_is_a_grammar_error() {
    let args: Args = parse_str(r#"["*.txt"]"#).unwrap();
    let attrs = vec![test_attribute(), ignore_attribute(r#"reason = "why""#)];
    match fixtures(&args, &attrs, "/work", &listing(&["/work/a.txt"])) {
        Err(FixturesError::Grammar(error)) => assert_eq!(
            error,
            GrammarError::new(
                GrammarErrorKind::MissingField(Field::Paths),
                SourceLocation::new(0, 6)
            )
        ),
        other => panic!("unexpected outcome: {:?}", other),
    }
}

#[test]
fn include_patterns_are_checked_before_everything_else() {
    let args: Args = parse_str(r#"["[a"], ignore = ["[b"]"#).unwrap();
    let attrs = vec![ignore_attribute(r#"reason = "why""#)];
    match fixtures(&args, &attrs, "/work", &vec![]) {
        Err(FixturesError::Pattern(error)) => assert_eq!(error.pattern(), "/work/[a"),
        other => panic!("unexpected outcome: {:?}", other),
    }
    let args: Args = parse_str(r#"["a"], ignore = ["[b"]"#).unwrap();
    match fixtures(&args, &vec![], "/work", &vec![]) {
        Err(FixturesError::Pattern(error)) => assert_eq!(error.pattern(), "/work/[b"),
        other => panic!("unexpected outcome: {:?}", other),
    }
}

#[test]
fn describe_keeps_every_file_and_finds_the_first_collision() {
    let files = vec![
        DiscoveredFile::new("/work/a/x"),
        DiscoveredFile::new("/work/x_2"),
        DiscoveredFile::new("/work/b/x"),
        DiscoveredFile::new("/work/c/x_2"),
    ];
    let descriptors = describe(&files, &IgnoreMatcher::empty());
    let identifiers: Vec<&str> = descriptors.iter().map(|d| d.identifier.as_str()).collect();
    assert_eq!(identifiers, vec!["x", "x_2", "x_2", "x_2_2"]);
    assert!(descriptors.iter().all(|d| !d.ignored && d.reason.is_none()));
    assert_eq!(find_collision(&descriptors), Some((1, 2)));
    assert_eq!(find_collision(&descriptors[..2].to_vec()), None);
    assert_eq!(find_collision(&vec![]), None);
}

#[test]
fn star_in_an_include_pattern_stays_within_one_segment() {
    let descriptors = run(r#"["*.txt"]"#, &["/work/a.txt", "/work/sub/b.txt"]).unwrap();
    assert_eq!(descriptors.len(), 1);
    assert_eq!(descriptors[0].identifier, "a_dot_txt");
    assert_eq!(descriptors[0].source_path, "/work/a.txt");
    assert!(!descriptors[0].ignored);
}

#[test]
fn double_star_in_an_include_pattern_reaches_below() {
    let files = ["/work/a.txt", "/work/sub/b.txt", "/work/sub/deep/c.txt"];
    let descriptors = run(r#"["**/*.txt"]"#, &files).unwrap();
    assert_eq!(descriptors.len(), 3);
    let one_level = run(r#"["*/*.txt"]"#, &files).unwrap();
    assert_eq!(one_level.len(), 1);
    assert_eq!(one_level[0].source_path, "/work/sub/b.txt");
    let excluded = run(r#"["**/*.txt", "!*.txt"]"#, &files).unwrap();
    let paths: Vec<&str> = excluded.iter().map(|d| d.source_path.as_str()).collect();
    assert_eq!(paths, vec!["/work/sub/b.txt", "/work/sub/deep/c.txt"]);
}

#[test]
fn question_mark_in_an_include_pattern_is_no_separator() {
    let files = ["/work/a/b", "/work/a-b"];
    let descriptors = run(r#"["a?b"]"#, &files).unwrap();
    assert_eq!(descriptors.len(), 1);
    assert_eq!(descriptors[0].source_path, "/work/a-b");
}
