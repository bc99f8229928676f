use frame_explain::explain;
use frame_explain::location::{LocationKind, ParseError};
use frame_explain::parser::parse;
use frame_explain::render::{explain_location, ordinal, render};

#[test]
fn test_parse_method() {
    let input = "org.jdecl.parser.InputTextParser.getInputHandler(InputTextParser.java:425)";
    let parsed = parse(input).unwrap();

    let expected = vec![
        LocationKind::Package {
            name: "org.jdecl.parser".to_string(),
        },
        LocationKind::Class {
            name: "InputTextParser".to_string(),
        },
        LocationKind::Method {
            name: "getInputHandler".to_string(),
        },
    ];
    assert_eq!(expected, parsed);
}

#[test]
fn test_parse_lambda() {
    let input =
        "org.jdecl.parser.InputTextParser.lambda$getInputHandler$2(InputTextParser.java:425)";
    let parsed = parse(input).unwrap();

    let expected = vec![
        LocationKind::Package {
            name: "org.jdecl.parser".to_string(),
        },
        LocationKind::Class {
            name: "InputTextParser".to_string(),
        },
        LocationKind::Lambda {
            name: "getInputHandler".to_string(),
            id: 2,
        },
    ];
    assert_eq!(expected, parsed);
}

#[test]
fn explain_method_frame() {
    let input = "org.jdecl.parser.InputTextParser.getInputHandler(InputTextParser.java:425)";
    assert_eq!(
        explain(input),
        "inside method getInputHandler, part of class InputTextParser, in package org.jdecl.parser"
    );
}

#[test]
fn explain_lambda_frame() {
    let input =
        "org.jdecl.parser.InputTextParser.lambda$getInputHandler$2(InputTextParser.java:425)";
    assert_eq!(
        explain(input),
        "The 2nd lambda created inside method getInputHandler, part of class InputTextParser, in package org.jdecl.parser"
    );
}

#[test]
fn ordinal_simplified_rule() {
    assert_eq!(ordinal(1), "1st");
    assert_eq!(ordinal(2), "2nd");
    assert_eq!(ordinal(3), "3rd");
    assert_eq!(ordinal(4), "4th");
    assert_eq!(ordinal(11), "11th");
    assert_eq!(ordinal(21), "21th");
}

#[test]
fn ordinal_edge_values() {
    assert_eq!(ordinal(0), "0th");
    assert_eq!(ordinal(1234), "1234th");
    assert_eq!(ordinal(4294967295), "4294967295th");
}

#[test]
fn missing_paren_is_invalid() {
    assert_eq!(explain("not.a.frame"), "Invalid input");
    assert!(matches!(parse("not.a.frame"), Err(ParseError::InvalidInput)));
}

#[test]
fn too_few_dots_is_invalid() {
    assert_eq!(explain("Class.method(File.java:1)"), "Invalid input");
    assert_eq!(explain("method(File.java:1)"), "Invalid input");
    assert!(matches!(
        parse("Class.method(File.java:1)"),
        Err(ParseError::InvalidInput)
    ));
}

#[test]
fn empty_input_is_invalid() {
    assert_eq!(explain(""), "Invalid input");
}

#[test]
fn lambda_with_single_dollar_keeps_empty_name() {
    let input = "a.b.C.lambda$5(F.java:1)";
    assert_eq!(
        explain(input),
        "The 5th lambda created inside method , part of class C, in package a.b"
    );
}

#[test]
fn lambda_with_non_numeric_id_is_invalid() {
    assert_eq!(explain("a.b.C.lambda$run$x(F.java:1)"), "Invalid input");
    assert!(matches!(
        parse("a.b.C.lambda$run$x(F.java:1)"),
        Err(ParseError::InvalidInput)
    ));
}

#[test]
fn lambda_with_empty_id_is_invalid() {
    assert_eq!(explain("a.b.C.lambda$(F.java:1)"), "Invalid input");
}

#[test]
fn lambda_with_oversized_id_is_invalid() {
    assert_eq!(explain("a.b.C.lambda$run$4294967296(F.java:1)"), "Invalid input");
}

#[test]
fn lambda_with_dollars_in_outer_name() {
    let input = "a.b.C.lambda$out$er$7(F.java:1)";
    assert_eq!(
        explain(input),
        "The 7th lambda created inside method out$er, part of class C, in package a.b"
    );
}

#[test]
fn last_paren_decides_the_path() {
    let input = "a.b.C.m(x(y:1)";
    assert_eq!(explain(input), "inside method m(x, part of class C, in package a.b");
}

#[test]
fn explain_is_pure() {
    let input = "org.jdecl.parser.InputTextParser.getInputHandler(InputTextParser.java:425)";
    assert_eq!(explain(input), explain(input));
    assert_eq!(explain("not.a.frame"), explain("not.a.frame"));
}

#[test]
fn render_joins_innermost_first() {
    let segments = vec![
        LocationKind::Package {
            name: "a.b".to_string(),
        },
        LocationKind::Class {
            name: "C".to_string(),
        },
        LocationKind::Method {
            name: "m".to_string(),
        },
    ];
    assert_eq!(render(&segments), "inside method m, part of class C, in package a.b");
}

#[test]
fn explain_location_phrases() {
    let pkg = LocationKind::Package {
        name: "a.b".to_string(),
    };
    let cls = LocationKind::Class {
        name: "C".to_string(),
    };
    let method = LocationKind::Method {
        name: "m".to_string(),
    };
    let lambda = LocationKind::Lambda {
        name: "m".to_string(),
        id: 3,
    };
    assert_eq!(explain_location(&pkg), "in package a.b");
    assert_eq!(explain_location(&cls), "part of class C");
    assert_eq!(explain_location(&method), "inside method m");
    assert_eq!(explain_location(&lambda), "The 3rd lambda created inside method m");
}
