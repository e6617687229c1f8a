use fixtures::glob::Pattern;
use fixtures::ignore_matcher::{IgnoreMatcher, MatchResult};
use fixtures::location::SourceLocation;
use fixtures::parse::ignore_attribute::{ignore_attributes, IgnoreAttribute};
use fixtures::parse::ignore_config::IgnoreConfig;
use fixtures::parse::parse_str;
use fixtures::lexer::lex;
use fixtures::parse::paths::Paths;
use fixtures::resolver::Resolver;
use fixtures::utils::attribute::{AttrStyle, Attribute, AttributePath, Meta};
use fixtures::token::Delimiter;

fn ignore_attribute(arguments: &str) -> Attribute {
    Attribute {
        style: AttrStyle::Outer,
        meta: Meta::List {
            path: AttributePath {
                leading_colon: false,
                segments: vec!["fixtures".to_string(), "ignore".to_string()],
            },
            delimiter: Delimiter::Parenthesis,
            delimiter_span: SourceLocation::new(0, 0),
            tokens: lex(arguments).unwrap(),
        },
        span: SourceLocation::new(100, 200),
    }
}

fn attributes(arguments: &[&str]) -> Vec<IgnoreAttribute> {
    let attrs: Vec<Attribute> = arguments.iter().map(|a| ignore_attribute(a)).collect();
    ignore_attributes(&attrs).unwrap()
}

fn reason_of(result: MatchResult) -> Option<Option<String>> {
    match result {
        MatchResult::Matched { reason } => Some(reason.map(|r| r.value())),
        MatchResult::Unmatched => None,
    }
}

#[test]
fn pattern_matches_as_the_glob_engine_says() {
    let pattern = Pattern::compile("/work/*.txt").unwrap();
    assert!(pattern.is_match("/work/a.txt"));
    assert!(!pattern.is_match("/work/a.md"));
    assert!(!pattern.is_match("/other/a.txt"));
    let recursive = Pattern::compile("/work/**/x.txt").unwrap();
    assert!(recursive.is_match("/work/x.txt"));
    assert!(recursive.is_match("/work/a/b/x.txt"));
    assert!(!recursive.is_match("/work/a/b/y.txt"));
    let class = Pattern::compile("/work/file_[0-9]?.txt").unwrap();
    assert!(class.is_match("/work/file_1a.txt"));
    assert!(!class.is_match("/work/file_a1.txt"));
}

#[test]
fn malformed_pattern_does_not_compile() {
    assert!(Pattern::compile("/work/[a").is_err());
    assert!(Pattern::compile("/work/{a,b").is_err());
    assert!(Pattern::compile("/work/a}").is_err());
    assert!(Pattern::compile("/work/[z-a]").is_err());
    assert!(Pattern::compile("").is_ok());
}

#[test]
fn empty_matcher_matches_nothing() {
    let matcher = IgnoreMatcher::empty();
    assert!(matches!(matcher.matched("/work/a.txt"), MatchResult::Unmatched));
    let none = IgnoreMatcher::new(&None, &vec![], "/work").unwrap();
    assert!(matches!(none.matched("/work/a.txt"), MatchResult::Unmatched));
    let empty = Some(parse_str::<IgnoreConfig>("[]").unwrap());
    let matcher = IgnoreMatcher::new(&empty, &vec![], "/work").unwrap();
    assert!(matches!(matcher.matched("/work/a.txt"), MatchResult::Unmatched));
}

#[test]
fn first_matching_pattern_decides_the_reason() {
    let config = Some(
        parse_str::<IgnoreConfig>(
            r#"{
                paths = [
                    { path = "a.*", reason = "first" },
                    { path = "*.txt", reason = "second" },
                    "*.md",
                ],
                reason = "default",
            }"#,
        )
        .unwrap(),
    );
    let matcher = IgnoreMatcher::new(&config, &vec![], "/work").unwrap();
    assert_eq!(
        reason_of(matcher.matched("/work/a.txt")),
        Some(Some("first".to_string()))
    );
    assert_eq!(
        reason_of(matcher.matched("/work/b.txt")),
        Some(Some("second".to_string()))
    );
    assert_eq!(
        reason_of(matcher.matched("/work/b.md")),
        Some(Some("default".to_string()))
    );
    assert_eq!(reason_of(matcher.matched("/work/b.rs")), None);
    assert_eq!(reason_of(matcher.matched("/elsewhere/a.txt")), None);
}

#[test]
fn anonymous_ignore_is_still_ignored() {
    let config = Some(parse_str::<IgnoreConfig>(r#"["*.txt"]"#).unwrap());
    let matcher = IgnoreMatcher::new(&config, &vec![], "/work").unwrap();
    assert_eq!(reason_of(matcher.matched("/work/a.txt")), Some(None));
}

#[test]
fn configuration_entries_go_before_attributes() {
    let config = Some(
        parse_str::<IgnoreConfig>(r#"{ paths = [{ path = "a.txt", reason = "config" }] }"#)
            .unwrap(),
    );
    let attrs = attributes(&[
        r#"paths = "*.txt", reason = "attribute""#,
        r#""*.md""#,
    ]);
    let matcher = IgnoreMatcher::new(&config, &attrs, "/work").unwrap();
    assert_eq!(
        reason_of(matcher.matched("/work/a.txt")),
        Some(Some("config".to_string()))
    );
    assert_eq!(
        reason_of(matcher.matched("/work/b.txt")),
        Some(Some("attribute".to_string()))
    );
    assert_eq!(reason_of(matcher.matched("/work/b.md")), Some(None));
    let only_attrs = IgnoreMatcher::new(&None, &attrs, "/work").unwrap();
    assert_eq!(
        reason_of(only_attrs.matched("/work/a.txt")),
        Some(Some("attribute".to_string()))
    );
}

#[test]
fn default_reason_does_not_reach_attributes_without_configuration() {
    let attrs = attributes(&[r#""*.txt""#]);
    let config = Some(parse_str::<IgnoreConfig>(r#"{ paths = [], reason = "default" }"#).unwrap());
    let with_default = IgnoreMatcher::new(&config, &attrs, "/work").unwrap();
    assert_eq!(
        reason_of(with_default.matched("/work/a.txt")),
        Some(Some("default".to_string()))
    );
    let without = IgnoreMatcher::new(&None, &attrs, "/work").unwrap();
    assert_eq!(reason_of(without.matched("/work/a.txt")), Some(None));
}

#[test]
fn first_malformed_pattern_aborts_the_matcher() {
    let config = Some(parse_str::<IgnoreConfig>(r#"["a.txt", "[b", "{c"]"#).unwrap());
    let attrs = attributes(&[r#""[d""#]);
    let error = match IgnoreMatcher::new(&config, &attrs, "/work") {
        Err(error) => error,
        Ok(_) => panic!("the matcher should not be built"),
    };
    assert_eq!(error.pattern(), "/work/[b");
    assert_eq!(error.span(), SourceLocation::new(10, 14));
    assert!(error.message().contains("/work/[b"));
    assert_eq!(error.cause().glob(), Some("/work/[b"));

    let fine = Some(parse_str::<IgnoreConfig>(r#"["a.txt"]"#).unwrap());
    let error = match IgnoreMatcher::new(&fine, &attrs, "/work") {
        Err(error) => error,
        Ok(_) => panic!("the matcher should not be built"),
    };
    assert_eq!(error.pattern(), "/work/[d");
    assert_eq!(error.span(), SourceLocation::new(0, 4));
}

#[test]
fn absolute_ignore_pattern_is_not_relative_to_the_directory() {
    let config = Some(parse_str::<IgnoreConfig>(r#"["/abs/*.txt"]"#).unwrap());
    let matcher = IgnoreMatcher::new(&config, &vec![], "/work").unwrap();
    assert_eq!(reason_of(matcher.matched("/abs/a.txt")), Some(None));
    assert_eq!(reason_of(matcher.matched("/work/abs/a.txt")), None);
}

#[test]
fn resolver_selects_included_and_not_excluded_files() {
    let patterns = parse_str::<Paths>(r#"["a/*.txt", "!a/*.skip.txt", "b/*.md"]"#).unwrap();
    let resolver = Resolver::new(&patterns, "/work").unwrap();
    assert!(resolver.selects("/work/a/x.txt"));
    assert!(!resolver.selects("/work/a/x.skip.txt"));
    assert!(resolver.selects("/work/b/x.md"));
    assert!(!resolver.selects("/work/b/x.txt"));
    let listing: Vec<String> = [
        "/work/b/x.md",
        "/work/a/x.skip.txt",
        "/work/c/x.txt",
        "/work/a/x.txt",
    ]
    .iter()
    .map(|p| p.to_string())
    .collect();
    let files = resolver.resolve(&listing);
    let paths: Vec<&str> = files.iter().map(|f| f.path()).collect();
    assert_eq!(paths, vec!["/work/b/x.md", "/work/a/x.txt"]);
    assert_eq!(files[0].file_name(), "x.md");
    assert!(resolver.resolve(&vec![]).is_empty());
}

#[test]
fn only_exclusions_select_nothing() {
    let patterns = parse_str::<Paths>(r#"["!*.txt"]"#).unwrap();
    let resolver = Resolver::new(&patterns, "/work").unwrap();
    assert!(!resolver.selects("/work/a.txt"));
    assert!(!resolver.selects("/work/a.md"));
    let none = parse_str::<Paths>("[]").unwrap();
    let resolver = Resolver::new(&none, "/work").unwrap();
    assert!(!resolver.selects("/work/a.txt"));
}

#[test]
fn first_malformed_include_pattern_aborts_the_resolver() {
    let patterns = parse_str::<Paths>(r#"["a.txt", "![b", "{c"]"#).unwrap();
    let error = match Resolver::new(&patterns, "/work") {
        Err(error) => error,
        Ok(_) => panic!("the resolver should not be built"),
    };
    assert_eq!(error.pattern(), "/work/[b");
    assert_eq!(error.span(), SourceLocation::new(10, 15));
}

#[test]
fn pattern_error_hands_out_its_cause_and_the_text_of_it() {
    let patterns = parse_str::<Paths>(r#"["[b"]"#).unwrap();
    let error = match Resolver::new(&patterns, "/work") {
        Err(error) => error,
        Ok(_) => panic!("the resolver should not be built"),
    };
    assert_eq!(error.cause().glob(), Some("/work/[b"));
    assert_eq!(error.cause().kind(), &globset::ErrorKind::UnclosedClass);
    assert_eq!(error.message(), error.cause().to_string());
    assert_eq!(
        error.message(),
        "error parsing glob '/work/[b': unclosed character class; missing ']'"
    );
    let config = Some(parse_str::<IgnoreConfig>(r#"["{b"]"#).unwrap());
    let ignored = match IgnoreMatcher::new(&config, &vec![], "/work") {
        Err(error) => error,
        Ok(_) => panic!("the matcher should not be built"),
    };
    assert_eq!(
        ignored.message(),
        "error parsing glob '/work/{b': unclosed alternate group; missing '}' \
         (maybe escape '{' with '[{]'?)"
    );
    let other = match Pattern::compile("/work/[z-a]") {
        Err(cause) => fixtures::glob::PatternError::new(
            "/work/[z-a]".to_string(),
            SourceLocation::new(1, 2),
            cause,
        ),
        Ok(_) => panic!("the pattern should not compile"),
    };
    assert_eq!(other.cause().kind(), &globset::ErrorKind::InvalidRange('z', 'a'));
    assert_eq!(
        other.message(),
        "error parsing glob '/work/[z-a]': invalid range; 'z' > 'a'"
    );
    assert_eq!(other.span(), SourceLocation::new(1, 2));
    assert_eq!(other.pattern(), "/work/[z-a]");
}

#[test]
fn segment_pattern_keeps_star_and_question_mark_within_a_segment() {
    let pattern = Pattern::compile_segments("/work/*.txt").unwrap();
    assert!(pattern.is_match("/work/a.txt"));
    assert!(!pattern.is_match("/work/sub/a.txt"));
    assert!(!pattern.is_match("/work/a.md"));
    let crossing = Pattern::compile("/work/*.txt").unwrap();
    assert!(crossing.is_match("/work/a.txt"));
    assert!(crossing.is_match("/work/sub/a.txt"));
    let single = Pattern::compile_segments("/work/a?b").unwrap();
    assert!(single.is_match("/work/a-b"));
    assert!(!single.is_match("/work/a/b"));
    assert!(Pattern::compile("/work/a?b").unwrap().is_match("/work/a/b"));
    let recursive = Pattern::compile_segments("/work/**/x.txt").unwrap();
    assert!(recursive.is_match("/work/x.txt"));
    assert!(recursive.is_match("/work/a/b/x.txt"));
    assert!(!recursive.is_match("/work/a/b/xx.txt"));
    let class = Pattern::compile_segments("/work/[a-c]*").unwrap();
    assert!(class.is_match("/work/b1"));
    assert!(!class.is_match("/work/b/1"));
    assert!(!class.is_match("/work/d1"));
    assert!(Pattern::compile_segments("/work/[a").is_err());
    assert!(Pattern::compile_segments("/work/{a,b").is_err());
}

#[test]
fn ignore_pattern_lets_star_match_separators() {
    let config = Some(parse_str::<IgnoreConfig>(r#"["*.txt"]"#).unwrap());
    let matcher = IgnoreMatcher::new(&config, &vec![], "/work").unwrap();
    assert_eq!(reason_of(matcher.matched("/work/a.txt")), Some(None));
    assert_eq!(reason_of(matcher.matched("/work/sub/b.txt")), Some(None));
    assert_eq!(reason_of(matcher.matched("/work/sub/b.md")), None);
}

#[test]
fn resolver_patterns_stay_within_segments() {
    let patterns = parse_str::<Paths>(r#"["*.txt", "!sub/*.skip.txt", "sub/**"]"#).unwrap();
    let resolver = Resolver::new(&patterns, "/work").unwrap();
    assert!(resolver.selects("/work/a.txt"));
    assert!(!resolver.selects("/work/other/a.txt"));
    assert!(resolver.selects("/work/sub/deep/a.md"));
    assert!(!resolver.selects("/work/sub/a.skip.txt"));
    assert!(resolver.selects("/work/sub/deep/a.skip.txt"));
}
