use protodoc::descriptor::GeneratorRequest;
use protodoc::options::Options;

#[test]
fn parse_empty_options() {
    let request = GeneratorRequest {
        parameter: None,
        ..Default::default()
    };

    let options = Options::from_request(&request);
    assert!(options.output.is_none());
    assert!(!options.optimize_for_doxygen);
}

#[test]
fn parse_single_file_options() {
    let request = GeneratorRequest {
        parameter: Some("output:foo.md".to_string()),
        ..Default::default()
    };

    let options = Options::from_request(&request);
    assert!(options.output.is_some());
    assert_eq!(options.output.unwrap(), "foo.md");
    assert!(!options.optimize_for_doxygen);
}

#[test]
fn parse_optimize_for_doxygen() {
    let request = GeneratorRequest {
        parameter: Some("optimize:doxygen".to_string()),
        ..Default::default()
    };

    let options = Options::from_request(&request);
    assert!(options.output.is_none());
    assert!(options.optimize_for_doxygen);
}

#[test]
fn parse_both_options() {
    let request = GeneratorRequest {
        parameter: Some("output:bar.md,optimize:doxygen".to_string()),
        ..Default::default()
    };

    let options = Options::from_request(&request);
    assert!(options.output.is_some());
    assert_eq!(options.output.unwrap(), "bar.md");
    assert!(options.optimize_for_doxygen);
}

#[test]
fn optimize_for_other_tool_is_off() {
    let request = GeneratorRequest {
        parameter: Some("optimize:other,unknown:x".to_string()),
        ..Default::default()
    };
    let options = Options::from_request(&request);
    assert!(options.output.is_none());
    assert!(!options.optimize_for_doxygen);
}

#[test]
fn later_option_wins() {
    let pairs = vec![
        (Some("output".to_string()), Some("a.md".to_string())),
        (Some("output".to_string()), Some("b.md".to_string())),
        (Some("optimize".to_string()), Some("doxygen".to_string())),
        (None, Some("ignored".to_string())),
    ];
    let options = Options::from_captures(&pairs);
    assert_eq!(options.output, Some("b.md".to_string()));
    assert!(options.optimize_for_doxygen);
}
