use nom::bytes::complete::tag_no_case;
use nom::Parser;
use wmish::parser::{parse_command, Command, OutputFormat, ParseError};

fn call(method: &str, target: &str) -> Command {
    Command::Call { method: method.to_string(), args: vec![], target: target.to_string() }
}

#[test]
fn test_parse_exit() {
    assert_eq!(parse_command("EXIT"), Ok(("", Command::Exit)));
    assert_eq!(parse_command("quit"), Ok(("", Command::Exit)));
}

#[test]
fn test_parse_namespace() {
    assert_eq!(
        parse_command(r#"NAMESPACE ROOT\CIMV2"#),
        Ok(("", Command::Namespace(r#"ROOT\CIMV2"#.to_string())))
    );
}

#[test]
fn test_parse_classes() {
    assert_eq!(parse_command("CLASSES"), Ok(("", Command::Classes)));
}

#[test]
fn test_parse_show() {
    assert_eq!(
        parse_command("SHOW Win32_Process"),
        Ok(("", Command::Show("Win32_Process".to_string())))
    );
}

#[test]
fn test_parse_select() {
    let query = "SELECT * FROM Win32_Process";
    assert_eq!(parse_command(query), Ok(("", Command::Select(query.to_string()))));
}

#[test]
fn test_parse_format() {
    assert_eq!(parse_command("FORMAT JSON"), Ok(("", Command::Format(OutputFormat::Json))));
    assert_eq!(parse_command("format csv"), Ok(("", Command::Format(OutputFormat::Csv))));
}

#[test]
fn test_parse_call() {
    assert_eq!(parse_command("CALL Create WITH Win32_Process"), Ok(("", call("Create", "Win32_Process"))));
}

#[test]
fn keyword_leaves_rest() {
    assert_eq!(parse_command("EXITS"), Ok(("S", Command::Exit)));
    assert_eq!(parse_command("quit now"), Ok((" now", Command::Exit)));
    assert_eq!(parse_command("CLASSES extra"), Ok((" extra", Command::Classes)));
    assert_eq!(parse_command("FORMAT TABLEX"), Ok(("X", Command::Format(OutputFormat::Table))));
}

#[test]
fn leading_space_is_not_a_command() {
    assert_eq!(parse_command("  EXIT"), Err(ParseError::NoMatch));
    assert_eq!(parse_command(""), Err(ParseError::NoMatch));
    assert_eq!(parse_command("bogus"), Err(ParseError::NoMatch));
}

#[test]
fn argument_keywords_need_space() {
    assert_eq!(parse_command("NAMESPACE"), Err(ParseError::NoMatch));
    assert_eq!(parse_command("NAMESPACEroot"), Err(ParseError::NoMatch));
    assert_eq!(parse_command("SHOWX"), Err(ParseError::NoMatch));
    assert_eq!(parse_command("MOF"), Err(ParseError::NoMatch));
    assert_eq!(parse_command("FORMAT"), Err(ParseError::NoMatch));
    assert_eq!(parse_command("CALL"), Err(ParseError::NoMatch));
}

#[test]
fn rest_arguments_are_trimmed() {
    assert_eq!(
        parse_command("namespace \t root\\default  \r\n"),
        Ok(("", Command::Namespace("root\\default".to_string())))
    );
    assert_eq!(
        parse_command("NAMESPACE \u{a0}root\u{3000}"),
        Ok(("", Command::Namespace("root".to_string())))
    );
    assert_eq!(parse_command("Mof\tWin32_Process "), Ok(("", Command::MOF("Win32_Process".to_string()))));
    assert_eq!(parse_command("SHOW "), Ok(("", Command::Show(String::new()))));
}

#[test]
fn select_rebuilds_query() {
    assert_eq!(parse_command("select"), Ok(("", Command::Select("SELECT ".to_string()))));
    assert_eq!(
        parse_command("selectED Name  FROM x "),
        Ok(("", Command::Select("SELECT ED Name  FROM x".to_string())))
    );
    assert_eq!(parse_command("Select  *"), Ok(("", Command::Select("SELECT *".to_string()))));
}

#[test]
fn every_format_name() {
    assert_eq!(parse_command("FORMAT  table"), Ok(("", Command::Format(OutputFormat::Table))));
    assert_eq!(parse_command("FoRmAt Ascii"), Ok(("", Command::Format(OutputFormat::Ascii))));
    assert_eq!(parse_command("format\tMARKDOWN"), Ok(("", Command::Format(OutputFormat::Markdown))));
    assert_eq!(parse_command("FORMAT xml"), Err(ParseError::NoMatch));
}

#[test]
fn call_forms() {
    assert_eq!(parse_command("CALL Create"), Ok(("", call("Create", ""))));
    assert_eq!(parse_command("call Terminate  with  Win32_Process  "), Ok(("", call("Terminate", "Win32_Process"))));
    assert_eq!(parse_command("CALL Create WITH"), Ok(("", call("Create", ""))));
    assert_eq!(parse_command("CALL Create WITHOUT x"), Ok(("", call("Create", ""))));
    assert_eq!(parse_command("CALL Create_x WITH y"), Ok(("", call("Create", ""))));
    assert_eq!(parse_command("CALL  _x"), Err(ParseError::NoMatch));
}

#[test]
fn kelvin_sign_in_markdown() {
    // U+212A KELVIN SIGN lower-cases to `k` and takes three bytes.
    assert_eq!(parse_command("FORMAT MAR\u{212a}DOWN"), Ok(("WN", Command::Format(OutputFormat::Markdown))));
    assert_eq!(parse_command("format mar\u{212a}do"), Ok(("", Command::Format(OutputFormat::Markdown))));
    assert_eq!(parse_command("FORMAT MAR\u{212a}D"), Err(ParseError::NoMatch));
    assert_eq!(parse_command("EXIT\u{212a}"), Ok(("\u{212a}", Command::Exit)));
}

#[test]
fn keyword_matching_agrees_with_nom() {
    for input in ["MAR\u{212a}DOWN", "mar\u{212a}do", "MAR\u{212a}D", "markdownx", "Markdow"] {
        let by_nom: nom::IResult<&str, &str> = tag_no_case("MARKDOWN").parse(input);
        let line = format!("FORMAT {}", input);
        match (by_nom, parse_command(&line)) {
            (Ok((rest, _)), Ok((ours, cmd))) => {
                assert_eq!(rest, ours);
                assert_eq!(cmd, Command::Format(OutputFormat::Markdown));
            }
            (Err(_), Err(_)) => {}
            (a, b) => panic!("{:?} {:?}", a, b),
        }
    }
}
