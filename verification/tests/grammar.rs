use goxkey::scripting::parser::{
    is_identifier_char, is_key_char, parse_block, parse_function_call, parse_identifier,
    parse_identifier_list, parse_import, parse_import_list, parse_key, parse_key_list,
    parse_program, ErrorKind, ParseError, Program,
};

fn err(position: usize, kind: ErrorKind) -> ParseError {
    ParseError { position, kind }
}

#[test]
fn key_chars_and_identifier_chars() {
    assert!(is_key_char('a') && is_key_char('\'') && is_key_char(')') && is_key_char('đ'));
    assert!(!is_key_char(' ') && !is_key_char('\n') && !is_key_char('\u{a0}'));
    assert!(is_identifier_char('a') && is_identifier_char('1') && is_identifier_char('_'));
    assert!(is_identifier_char('é'));
    assert!(!is_identifier_char(' ') && !is_identifier_char('-') && !is_identifier_char('('));
}

#[test]
fn key_hands_back_the_rest() {
    assert_eq!(parse_key("abc"), Ok(("bc", "a".to_string())));
    assert_eq!(parse_key("đi"), Ok(("i", "đ".to_string())));
    assert_eq!(parse_key(""), Err(err(0, ErrorKind::TakeWhileMN)));
    assert_eq!(parse_key(" a"), Err(err(0, ErrorKind::TakeWhileMN)));
}

#[test]
fn identifier_hands_back_the_rest() {
    assert_eq!(
        parse_identifier("add_tone(acute)"),
        Ok(("(acute)", "add_tone".to_string()))
    );
    assert_eq!(parse_identifier("(x)"), Err(err(0, ErrorKind::TakeWhile1)));
    assert_eq!(parse_identifier(""), Err(err(0, ErrorKind::TakeWhile1)));
}

#[test]
fn a_list_leaves_an_or_without_a_word_unread() {
    assert_eq!(
        parse_key_list("a or b or "),
        Ok((" or ", vec!["a".to_string(), "b".to_string()]))
    );
    assert_eq!(
        parse_key_list("a orb"),
        Ok((" orb", vec!["a".to_string()]))
    );
    assert_eq!(
        parse_key_list("a\tor\r\nb:"),
        Ok((":", vec!["a".to_string(), "b".to_string()]))
    );
    assert_eq!(
        parse_identifier_list("horn or breve for u"),
        Ok((" for u", vec!["horn".to_string(), "breve".to_string()]))
    );
    assert_eq!(
        parse_identifier_list("x or (y)"),
        Ok((" or (y)", vec!["x".to_string()]))
    );
    assert_eq!(parse_key_list(" a"), Err(err(0, ErrorKind::TakeWhileMN)));
}

#[test]
fn import_errors_say_where_and_why() {
    assert_eq!(parse_import("export x"), Err(err(0, ErrorKind::Tag)));
    assert_eq!(parse_import("import"), Err(err(6, ErrorKind::MultiSpace)));
    assert_eq!(parse_import("import;"), Err(err(6, ErrorKind::MultiSpace)));
    assert_eq!(parse_import("import  ()"), Err(err(8, ErrorKind::TakeWhile1)));
    assert_eq!(parse_import_list(""), Err(err(0, ErrorKind::Tag)));
    let (rest, imports) = parse_import_list("import a\nimport b\nimport").unwrap();
    assert_eq!(rest, "\nimport");
    assert_eq!(imports.len(), 2);
    assert_eq!(imports[1].identifier, "b");
}

#[test]
fn function_call_errors_say_where_and_why() {
    assert_eq!(parse_function_call("(x)"), Err(err(0, ErrorKind::TakeWhile1)));
    assert_eq!(parse_function_call("abc"), Err(err(3, ErrorKind::Tag)));
    assert_eq!(parse_function_call("abc ()"), Err(err(3, ErrorKind::Tag)));
    assert_eq!(parse_function_call("abc(x"), Err(err(5, ErrorKind::Tag)));
    assert_eq!(
        parse_function_call("f(  hello or world for )"),
        Err(err(24, ErrorKind::Tag))
    );
    let (rest, call) = parse_function_call("f(for))").unwrap();
    assert_eq!(rest, ")");
    assert_eq!(call.identifier_list, Some(vec!["for".to_string()]));
    assert_eq!(call.key_list, None);
    let (rest, call) = parse_function_call("f(x for a or ) )").unwrap();
    assert_eq!(rest, "");
    assert_eq!(call.identifier_list, Some(vec!["x".to_string()]));
    assert_eq!(call.key_list, Some(vec!["a".to_string(), ")".to_string()]));
}

#[test]
fn block_errors_say_where_and_why() {
    assert_eq!(parse_block("off a: f() end"), Err(err(0, ErrorKind::Tag)));
    assert_eq!(parse_block("on"), Err(err(2, ErrorKind::MultiSpace)));
    assert_eq!(parse_block("on "), Err(err(3, ErrorKind::TakeWhileMN)));
    assert_eq!(parse_block("on abc: "), Err(err(4, ErrorKind::Tag)));
    assert_eq!(parse_block("on a:f() end"), Err(err(5, ErrorKind::MultiSpace)));
    assert_eq!(parse_block("on a: end"), Err(err(9, ErrorKind::Tag)));
    assert_eq!(parse_block("on a: f()end"), Err(err(9, ErrorKind::MultiSpace)));
    assert_eq!(parse_block("on a: f() done"), Err(err(10, ErrorKind::Tag)));
    let (rest, block) = parse_block("on : : f() end end").unwrap();
    assert_eq!(rest, " end");
    assert_eq!(block.key_list, vec![":".to_string()]);
}

#[test]
fn every_input_is_a_program() {
    for input in ["", "   ", "garbage", "import", "on a: end", "import a on", "\n\t"] {
        let result = parse_program(input);
        assert!(result.is_ok(), "{:?}", input);
    }
    assert_eq!(
        parse_program("garbage"),
        Ok((
            "garbage",
            Program {
                import_list: None,
                block_list: None
            }
        ))
    );
    let (rest, program) = parse_program("  import a  on x: f() end  tail").unwrap();
    assert_eq!(rest, "tail");
    assert_eq!(program.import_list.unwrap().len(), 1);
    assert_eq!(program.block_list.unwrap().len(), 1);
    let (rest, program) = parse_program("import a on x: f() end\non y: f()").unwrap();
    assert_eq!(rest, "on y: f()");
    assert_eq!(program.block_list.unwrap().len(), 1);
}
