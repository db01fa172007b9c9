use convert_params::{convert_args, parse_directives, rewrite, Directive, FnDef, Param, TransformError};

fn typed(name: &str, ty: &str) -> Param {
    Param::Typed { name: name.to_string(), ty: ty.to_string() }
}

fn other(src: &str) -> Param {
    Param::Other { src: src.to_string() }
}

fn directive(name: &str, ty: &str) -> Directive {
    Directive { arg_name: name.to_string(), substitute_type: ty.to_string() }
}

fn prologue(name: &str, sub: &str, orig: &str) -> String {
    format!(
        "let {} = {{ let {}: {} = {}.into(); <{} as std::convert::TryFrom<_>>::try_from({})? }};",
        name, name, sub, name, orig, name
    )
}

fn param_fields(p: &Param) -> (Option<(&str, &str)>, Option<&str>) {
    match p {
        Param::Typed { name, ty } => (Some((name.as_str(), ty.as_str())), None),
        Param::Other { src } => (None, Some(src.as_str())),
    }
}

#[test]
fn parses_single_directive() {
    let ds = parse_directives("v: Orig").unwrap();
    assert_eq!(ds.len(), 1);
    assert_eq!(ds[0].arg_name, "v");
    assert_eq!(ds[0].substitute_type, "Orig");
}

#[test]
fn parses_multiple_directives_in_order() {
    let ds = parse_directives("a: TypeX, b: TypeY").unwrap();
    assert_eq!(ds.len(), 2);
    assert_eq!(ds[0].arg_name, "a");
    assert_eq!(ds[0].substitute_type, "TypeX");
    assert_eq!(ds[1].arg_name, "b");
    assert_eq!(ds[1].substitute_type, "TypeY");
}

#[test]
fn parses_trailing_comma() {
    let ds = parse_directives("v: Orig,").unwrap();
    assert_eq!(ds.len(), 1);
    assert_eq!(ds[0].arg_name, "v");
}

#[test]
fn empty_payload_yields_empty_set() {
    let ds = parse_directives("").unwrap();
    assert!(ds.is_empty());
}

#[test]
fn whitespace_payload_yields_empty_set() {
    let ds = parse_directives("   ").unwrap();
    assert!(ds.is_empty());
}

#[test]
fn parses_reference_type_text() {
    let ds = parse_directives("s: &str").unwrap();
    assert_eq!(ds[0].substitute_type, "& str");
}

#[test]
fn parses_generic_type_text() {
    let ds = parse_directives("v: Vec<u8>").unwrap();
    assert_eq!(ds[0].substitute_type, "Vec < u8 >");
}

#[test]
fn missing_colon_is_syntax_error() {
    assert!(matches!(
        parse_directives("v Orig"),
        Err(TransformError::Syntax { .. })
    ));
}

#[test]
fn missing_type_is_syntax_error() {
    assert!(matches!(parse_directives("v:"), Err(TransformError::Syntax { .. })));
}

#[test]
fn unmatched_delimiter_is_syntax_error() {
    assert!(matches!(
        parse_directives("v: Vec<u8"),
        Err(TransformError::Syntax { .. })
    ));
}

#[test]
fn destructuring_pattern_is_syntax_error() {
    assert!(matches!(
        parse_directives("(a, b): T"),
        Err(TransformError::Syntax { .. })
    ));
}

#[test]
fn receiver_is_syntax_error() {
    assert!(matches!(
        parse_directives("self: T"),
        Err(TransformError::Syntax { .. })
    ));
}

#[test]
fn mut_binding_is_syntax_error() {
    assert!(matches!(
        parse_directives("mut v: T"),
        Err(TransformError::Syntax { .. })
    ));
}

#[test]
fn duplicate_names_are_permitted_by_parser() {
    let ds = parse_directives("v: A, v: B").unwrap();
    assert_eq!(ds.len(), 2);
    assert_eq!(ds[0].arg_name, "v");
    assert_eq!(ds[1].arg_name, "v");
}

#[test]
fn substitutes_parameter_type_and_keeps_arity() {
    let mut def = FnDef {
        params: vec![typed("i", "u32"), typed("v", "Foo")],
        stmts: vec!["Ok(())".to_string()],
    };
    let ds = vec![directive("v", "Orig")];
    rewrite(&mut def, &ds).unwrap();
    assert_eq!(def.params.len(), 2);
    assert_eq!(param_fields(&def.params[0]).0, Some(("i", "u32")));
    assert_eq!(param_fields(&def.params[1]).0, Some(("v", "Orig")));
}

#[test]
fn synthesizes_prologue_statement_text() {
    let mut def = FnDef {
        params: vec![typed("i", "u32"), typed("v", "Foo")],
        stmts: vec!["Ok(())".to_string()],
    };
    let ds = vec![directive("v", "Orig")];
    rewrite(&mut def, &ds).unwrap();
    assert_eq!(def.stmts.len(), 2);
    assert_eq!(def.stmts[0], prologue("v", "Orig", "Foo"));
    assert_eq!(def.stmts[1], "Ok(())");
}

#[test]
fn prologue_order_matches_directive_order() {
    let mut def = FnDef {
        params: vec![typed("a", "Orig1"), typed("b", "Orig2")],
        stmts: vec!["Ok(())".to_string()],
    };
    let ds = vec![directive("a", "TypeX"), directive("b", "TypeY")];
    rewrite(&mut def, &ds).unwrap();
    assert_eq!(def.stmts.len(), 3);
    assert_eq!(def.stmts[0], prologue("a", "TypeX", "Orig1"));
    assert_eq!(def.stmts[1], prologue("b", "TypeY", "Orig2"));
    assert_eq!(def.stmts[2], "Ok(())");
    assert_eq!(param_fields(&def.params[0]).0, Some(("a", "TypeX")));
    assert_eq!(param_fields(&def.params[1]).0, Some(("b", "TypeY")));
}

#[test]
fn unmatched_name_is_fatal_and_leaves_definition_untouched() {
    let mut def = FnDef {
        params: vec![typed("a", "A"), typed("b", "B")],
        stmts: vec!["Ok(())".to_string()],
    };
    let ds = vec![directive("c", "T")];
    let err = rewrite(&mut def, &ds).unwrap_err();
    match &err {
        TransformError::Unmatched { name } => assert_eq!(name, "c"),
        _ => panic!("expected an unmatched-argument error"),
    }
    assert_eq!(err.message(), "No argument named c");
    assert_eq!(param_fields(&def.params[0]).0, Some(("a", "A")));
    assert_eq!(param_fields(&def.params[1]).0, Some(("b", "B")));
    assert_eq!(def.stmts, vec!["Ok(())".to_string()]);
}

#[test]
fn unmatched_name_reports_first_unmatched_directive() {
    let mut def = FnDef { params: vec![typed("a", "A")], stmts: vec![] };
    let ds = vec![directive("a", "X"), directive("c", "Y"), directive("d", "Z")];
    let err = rewrite(&mut def, &ds).unwrap_err();
    match &err {
        TransformError::Unmatched { name } => assert_eq!(name, "c"),
        _ => panic!("expected an unmatched-argument error"),
    }
    assert_eq!(param_fields(&def.params[0]).0, Some(("a", "A")));
}

#[test]
fn other_parameters_are_skipped_not_matched() {
    let mut def = FnDef {
        params: vec![other("&self"), typed("x", "Foo")],
        stmts: vec!["self.run(x)".to_string()],
    };
    let ds = vec![directive("x", "Orig")];
    rewrite(&mut def, &ds).unwrap();
    assert_eq!(param_fields(&def.params[0]).1, Some("&self"));
    assert_eq!(param_fields(&def.params[1]).0, Some(("x", "Orig")));
    assert_eq!(def.stmts[0], prologue("x", "Orig", "Foo"));
}

#[test]
fn first_matching_parameter_wins() {
    let mut def = FnDef {
        params: vec![typed("v", "A"), typed("v", "B")],
        stmts: vec![],
    };
    let ds = vec![directive("v", "New")];
    rewrite(&mut def, &ds).unwrap();
    assert_eq!(param_fields(&def.params[0]).0, Some(("v", "New")));
    assert_eq!(param_fields(&def.params[1]).0, Some(("v", "B")));
    assert_eq!(def.stmts[0], prologue("v", "New", "A"));
}

#[test]
fn duplicate_directives_both_capture_the_original_type() {
    let mut def = FnDef { params: vec![typed("v", "Foo")], stmts: vec![] };
    let ds = vec![directive("v", "A"), directive("v", "B")];
    rewrite(&mut def, &ds).unwrap();
    assert_eq!(param_fields(&def.params[0]).0, Some(("v", "B")));
    assert_eq!(def.stmts[0], prologue("v", "A", "Foo"));
    assert_eq!(def.stmts[1], prologue("v", "B", "Foo"));
}

#[test]
fn empty_configuration_is_a_noop() {
    let mut def = FnDef {
        params: vec![typed("i", "u32"), other("&mut self")],
        stmts: vec!["let x = i + 1;".to_string(), "Ok(x)".to_string()],
    };
    convert_args("", &mut def).unwrap();
    assert_eq!(param_fields(&def.params[0]).0, Some(("i", "u32")));
    assert_eq!(param_fields(&def.params[1]).1, Some("&mut self"));
    assert_eq!(
        def.stmts,
        vec!["let x = i + 1;".to_string(), "Ok(x)".to_string()]
    );
}

#[test]
fn convert_args_runs_parse_then_rewrite() {
    let mut def = FnDef {
        params: vec![typed("i", "u32"), typed("v", "Foo")],
        stmts: vec!["Ok(())".to_string()],
    };
    convert_args("v: Orig", &mut def).unwrap();
    assert_eq!(param_fields(&def.params[1]).0, Some(("v", "Orig")));
    assert_eq!(def.stmts[0], prologue("v", "Orig", "Foo"));
}

#[test]
fn convert_args_reports_unmatched_name() {
    let mut def = FnDef { params: vec![typed("a", "A"), typed("b", "B")], stmts: vec![] };
    let err = convert_args("c: T", &mut def).unwrap_err();
    match &err {
        TransformError::Unmatched { name } => assert_eq!(name, "c"),
        _ => panic!("expected an unmatched-argument error"),
    }
}

#[test]
fn convert_args_propagates_syntax_errors_untouched() {
    let mut def = FnDef { params: vec![typed("v", "Foo")], stmts: vec![] };
    let err = convert_args("v Orig", &mut def).unwrap_err();
    assert!(matches!(err, TransformError::Syntax { .. }));
    assert_eq!(param_fields(&def.params[0]).0, Some(("v", "Foo")));
}
