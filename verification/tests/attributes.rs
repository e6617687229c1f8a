use fixtures::error::{Field, GrammarError, GrammarErrorKind};
use fixtures::lexer::lex;
use fixtures::location::SourceLocation;
use fixtures::parse::assignment::Assignment;
use fixtures::parse::ignore_args::IgnoreArgs;
use fixtures::parse::ignore_attribute::{ignore_attributes, IgnoreAttribute};
use fixtures::parse::parse_str;
use fixtures::parse::spanned::Spanned;
use fixtures::token::Delimiter;
use fixtures::utils::attribute::{
    attribute_path_is, is_test, is_test_attribute, AttrStyle, Attribute, AttributePath, Meta,
};

fn path(segments: &[&str]) -> AttributePath {
    AttributePath {
        leading_colon: false,
        segments: segments.iter().map(|s| s.to_string()).collect(),
    }
}

fn list(segments: &[&str], delimiter: Delimiter, arguments: &str) -> Attribute {
    Attribute {
        style: AttrStyle::Outer,
        meta: Meta::List {
            path: path(segments),
            delimiter,
            delimiter_span: SourceLocation::new(7, 8),
            tokens: lex(arguments).unwrap(),
        },
        span: SourceLocation::new(40, 50),
    }
}

fn bare(segments: &[&str]) -> Attribute {
    Attribute {
        style: AttrStyle::Outer,
        meta: Meta::Path(path(segments)),
        span: SourceLocation::new(0, 0),
    }
}

fn at(kind: GrammarErrorKind, start: usize, end: usize) -> GrammarError {
    GrammarError::new(kind, SourceLocation::new(start, end))
}

#[test]
fn attribute_path_is_compares_all_segments() {
    assert!(attribute_path_is(&path(&["fixtures", "ignore"]), ["fixtures", "ignore"]));
    assert!(!attribute_path_is(&path(&["fixtures"]), ["fixtures", "ignore"]));
    assert!(!attribute_path_is(
        &path(&["fixtures", "ignore", "more"]),
        ["fixtures", "ignore"]
    ));
    assert!(!attribute_path_is(&path(&["fixtures", "other"]), ["fixtures", "ignore"]));
    assert!(attribute_path_is(&path(&[]), []));
    let rooted = AttributePath {
        leading_colon: true,
        segments: vec!["fixtures".to_string(), "ignore".to_string()],
    };
    assert!(!attribute_path_is(&rooted, ["fixtures", "ignore"]));
}

#[test]
fn test_attribute_is_recognised() {
    assert!(is_test_attribute(&bare(&["test"])));
    assert!(!is_test_attribute(&bare(&["tokio", "test"])));
    assert!(!is_test_attribute(&bare(&["inline"])));
    assert!(!is_test_attribute(&list(&["test"], Delimiter::Parenthesis, "")));
    let inner = Attribute {
        style: AttrStyle::Inner,
        meta: Meta::Path(path(&["test"])),
        span: SourceLocation::new(0, 0),
    };
    assert!(!is_test_attribute(&inner));
    assert!(is_test(&vec![bare(&["inline"]), bare(&["test"])]));
    assert!(!is_test(&vec![bare(&["inline"])]));
    assert!(!is_test(&vec![]));
}

#[test]
fn ignore_attribute_is_read_with_its_arguments() {
    let attr = list(
        &["fixtures", "ignore"],
        Delimiter::Parenthesis,
        r#"paths = "a/*.txt", reason = "why","#,
    );
    let ignore = IgnoreAttribute::try_from_attribute(&attr).unwrap().unwrap();
    assert_eq!(ignore.span(), SourceLocation::new(40, 50));
    assert_eq!(ignore.args.paths.value(), "a/*.txt");
    assert_eq!(ignore.args().paths.span(), SourceLocation::new(8, 17));
    assert_eq!(ignore.args.reason.as_ref().unwrap().value(), "why");

    let literal = list(&["fixtures", "ignore"], Delimiter::Parenthesis, r#""b.txt""#);
    let ignore = IgnoreAttribute::try_from_attribute(&literal).unwrap().unwrap();
    assert_eq!(ignore.args.paths.value(), "b.txt");
    assert!(ignore.args.reason.is_none());
}

#[test]
fn other_attributes_are_passed_over() {
    assert!(IgnoreAttribute::try_from_attribute(&bare(&["test"])).unwrap().is_none());
    assert!(IgnoreAttribute::try_from_attribute(&bare(&["fixtures", "ignore"]))
        .unwrap()
        .is_none());
    let other = list(&["fixtures", "other"], Delimiter::Parenthesis, "1 2 3");
    assert!(IgnoreAttribute::try_from_attribute(&other).unwrap().is_none());
    let mut inner = list(&["fixtures", "ignore"], Delimiter::Parenthesis, r#""a""#);
    inner.style = AttrStyle::Inner;
    assert!(IgnoreAttribute::try_from_attribute(&inner).unwrap().is_none());
    let named = Attribute {
        style: AttrStyle::Outer,
        meta: Meta::NameValue(path(&["fixtures", "ignore"])),
        span: SourceLocation::new(0, 0),
    };
    assert!(IgnoreAttribute::try_from_attribute(&named).unwrap().is_none());
}

#[test]
fn ignore_attribute_needs_parentheses() {
    let attr = list(&["fixtures", "ignore"], Delimiter::Bracket, r#""a""#);
    let error = IgnoreAttribute::try_from_attribute(&attr).unwrap_err();
    assert_eq!(error, at(GrammarErrorKind::ExpectedParentheses, 7, 8));
    assert_eq!(error.message(), "Expected parentheses");
}

#[test]
fn ignore_attributes_are_collected_in_order() {
    let attrs = vec![
        bare(&["test"]),
        list(&["fixtures", "ignore"], Delimiter::Parenthesis, r#""a""#),
        bare(&["inline"]),
        list(&["fixtures", "ignore"], Delimiter::Parenthesis, r#""b""#),
    ];
    let found = ignore_attributes(&attrs).unwrap();
    assert_eq!(found.len(), 2);
    assert_eq!(found[0].args.paths.value(), "a");
    assert_eq!(found[1].args.paths.value(), "b");

    let broken = vec![
        list(&["fixtures", "ignore"], Delimiter::Parenthesis, r#""a""#),
        list(&["fixtures", "ignore"], Delimiter::Parenthesis, r#"reason = "r""#),
        list(&["fixtures", "ignore"], Delimiter::Brace, r#""b""#),
    ];
    assert_eq!(
        ignore_attributes(&broken).unwrap_err(),
        at(GrammarErrorKind::MissingField(Field::Paths), 0, 6)
    );
    assert!(ignore_attributes(&vec![]).unwrap().is_empty());
}

#[test]
fn ignore_arguments_are_checked() {
    let args = parse_str::<IgnoreArgs>(r#"reason = "r", paths = "p""#).unwrap();
    assert_eq!(args.paths.value(), "p");
    assert_eq!(args.reason.as_ref().unwrap().value(), "r");
    assert_eq!(
        parse_str::<IgnoreArgs>(r#""a" "b""#).unwrap_err(),
        at(GrammarErrorKind::UnexpectedToken, 4, 7)
    );
    assert_eq!(
        parse_str::<IgnoreArgs>(r#""a","#).unwrap_err(),
        at(GrammarErrorKind::UnexpectedToken, 3, 4)
    );
    assert_eq!(
        parse_str::<IgnoreArgs>("").unwrap_err(),
        at(GrammarErrorKind::ExpectedStringLiteral, 0, 0)
    );
    assert_eq!(
        parse_str::<IgnoreArgs>("12").unwrap_err(),
        at(GrammarErrorKind::ExpectedStringLiteral, 0, 2)
    );
    assert_eq!(
        parse_str::<IgnoreArgs>(r#"paths = "a", paths = "b""#).unwrap_err(),
        at(GrammarErrorKind::DuplicateField(Field::Paths), 13, 18)
    );
    assert_eq!(
        parse_str::<IgnoreArgs>(r#"reason = "a", reason = "b""#).unwrap_err(),
        at(GrammarErrorKind::DuplicateField(Field::Reason), 14, 20)
    );
    assert_eq!(
        parse_str::<IgnoreArgs>(r#"path = "a""#).unwrap_err(),
        at(GrammarErrorKind::UnknownConfigField, 0, 4)
    );
    assert_eq!(
        parse_str::<IgnoreArgs>(r#"paths = "a" reason = "b""#).unwrap_err(),
        at(GrammarErrorKind::ExpectedComma, 12, 18)
    );
    assert_eq!(
        parse_str::<IgnoreArgs>(r#"paths = ["a"]"#).unwrap_err(),
        at(GrammarErrorKind::ExpectedStringLiteral, 8, 9)
    );
}

#[test]
fn assignment_reads_name_and_value() {
    let assignment = parse_str::<Assignment>(r#"reason = "why""#).unwrap();
    assert_eq!(assignment.span(), SourceLocation::new(0, 14));
    assert_eq!(assignment.ident().as_str(), "reason");
    assert_eq!(assignment.ident().span(), SourceLocation::new(0, 6));
    let value = assignment.into_value();
    assert_eq!(value.value(), "why");
    assert_eq!(value.span(), SourceLocation::new(9, 14));
    assert_eq!(
        parse_str::<Assignment>(r#""why""#).unwrap_err(),
        at(GrammarErrorKind::ExpectedIdentifier, 0, 5)
    );
    assert_eq!(
        parse_str::<Assignment>("reason").unwrap_err(),
        at(GrammarErrorKind::ExpectedEquals, 6, 6)
    );
    assert_eq!(
        parse_str::<Assignment>("reason = x").unwrap_err(),
        at(GrammarErrorKind::ExpectedStringLiteral, 9, 10)
    );
}
