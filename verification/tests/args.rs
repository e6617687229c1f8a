use fixtures::parse::args::Args;
use fixtures::parse::parse_str;

#[test]
fn correctly_parses_anonymous_include() {
    let input = r#"["fixtures/*.txt"]"#;
    let args: Args = parse_str(input).expect("Failed to parse args");

    assert_eq!(args.includes().paths().len(), 1);
    assert_eq!(args.includes().paths()[0].value(), "fixtures/*.txt");
    assert!(args.ignore().is_none());
}

#[test]
fn correctly_parses_anonymous_include_with_trailing_comma() {
    let input = r#"["fixtures/*.txt"],"#;
    let args: Args = parse_str(input).expect("Failed to parse args");

    assert_eq!(args.includes().paths().len(), 1);
    assert_eq!(args.includes().paths()[0].value(), "fixtures/*.txt");
    assert!(args.ignore().is_none());
}

#[test]
fn correctly_parses_empty_ignore() {
    let input = r#"["fixtures/*.txt"], ignore = []"#;
    let args: Args = parse_str(input).expect("Failed to parse args");

    assert!(args.ignore().is_some());
    assert!(args.ignore().as_ref().unwrap().paths().paths().is_empty());
}

#[test]
fn correctly_parses_empty_ignore_with_trailing_comma() {
    let input = r#"["fixtures/*.txt"], ignore = [],"#;
    let args: Args = parse_str(input).expect("Failed to parse args");

    assert!(args.ignore().is_some());
    assert!(args.ignore().as_ref().unwrap().paths().paths().is_empty());
}

#[test]
fn correctly_parses_ignore_with_paths() {
    let input = r#"
            ["fixtures/*.txt"],
            ignore = ["fixtures/*.ignore.txt"]
        "#;
    let args: Args = parse_str(input).expect("Failed to parse args");

    assert!(args.ignore().is_some());
    let ignore = args.ignore().as_ref().unwrap();
    assert_eq!(ignore.paths().paths().len(), 1);
    assert_eq!(
        ignore.paths().paths()[0].path().value(),
        "fixtures/*.ignore.txt"
    );
}

#[test]
fn correctly_parses_complex_ignore() {
    let input = r#"
            ["fixtures/*.txt"],
            ignore = {
                paths = ["fixtures/*.ignore.txt"],
                reason = "reason for ignoring file",
            },
        "#;
    let args: Args = parse_str(input).expect("Failed to parse args");

    assert!(args.ignore().is_some());
    assert_eq!(args.ignore().as_ref().unwrap().paths().paths().len(), 1);
    assert_eq!(
        args.ignore().as_ref().unwrap().paths().paths()[0]
            .path()
            .value(),
        "fixtures/*.ignore.txt"
    );
    assert!(args.ignore().as_ref().unwrap().reason().is_some());
    assert_eq!(
        args.ignore()
            .as_ref()
            .unwrap()
            .reason()
            .as_ref()
            .unwrap()
            .value(),
        "reason for ignoring file",
    );
}

#[test]
fn returns_error_on_duplicate_ignore_assignments() {
    let input = r#"
            ["fixtures/*.txt"],
            ignore = [],
            ignore = [],
        "#;
    let result = parse_str::<Args>(input);

    assert!(result.is_err());
}
