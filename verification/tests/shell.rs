use wmish::parser::{Command, OutputFormat};
use wmish::shell::{
    interactive_line_action, script_line_action, unparsed_line_action, Action, LineAction, ResultTable, Shell,
};

fn s(x: &str) -> String {
    x.to_string()
}

fn rows() -> (Vec<String>, Vec<Vec<String>>) {
    (vec![s("Name"), s("Id")], vec![vec![s("a"), s("1")], vec![s("bb"), s("22")]])
}

#[test]
fn new_shell_state() {
    let sh = Shell::new();
    assert_eq!(sh.namespace, "ROOT\\CIMV2");
    assert_eq!(sh.format, OutputFormat::Table);
    assert_eq!(sh.prompt(), "ROOT\\CIMV2 >> ");
}

#[test]
fn format_command_sets_format() {
    let mut sh = Shell::new();
    assert_eq!(sh.execute_command(Command::Format(OutputFormat::Json)), Action::Nothing);
    assert_eq!(sh.format, OutputFormat::Json);
    sh.set_format(OutputFormat::Csv);
    assert_eq!(sh.format, OutputFormat::Csv);
    assert_eq!(sh.namespace, "ROOT\\CIMV2");
}

#[test]
fn commands_name_their_work() {
    let mut sh = Shell::new();
    assert_eq!(sh.execute_command(Command::Namespace(s("root\\default"))), Action::Connect(s("root\\default")));
    assert_eq!(sh.namespace, "ROOT\\CIMV2");
    assert_eq!(sh.execute_command(Command::Classes), Action::ListClasses);
    assert_eq!(sh.execute_command(Command::Show(s("X"))), Action::ShowProperties(s("X")));
    assert_eq!(sh.execute_command(Command::MOF(s("X"))), Action::ShowMof(s("X")));
    assert_eq!(sh.execute_command(Command::Select(s("SELECT a"))), Action::Query(s("SELECT a")));
    assert_eq!(sh.execute_command(Command::Exit), Action::Exit);
    assert_eq!(
        sh.execute_command(Command::Call { method: s("Create"), args: vec![], target: s("Win32_Process") }),
        Action::Print(s("Calling method Create on Win32_Process (Not implemented)"))
    );
    assert_eq!(sh.format, OutputFormat::Table);
}

#[test]
fn namespace_change_shows_in_prompt() {
    let mut sh = Shell::new();
    sh.namespace_changed(s("root\\default"));
    assert_eq!(sh.prompt(), "root\\default >> ");
    assert_eq!(sh.format, OutputFormat::Table);
}

#[test]
fn no_rows_print_nothing() {
    let sh = Shell::new();
    assert_eq!(sh.format_results(&vec![s("Name")], &vec![]), None);
}

#[test]
fn csv_output() {
    let mut sh = Shell::new();
    sh.set_format(OutputFormat::Csv);
    let (h, r) = rows();
    assert_eq!(sh.format_results(&h, &r), Some(s("Name,Id\na,1\nbb,22\n")));
}

#[test]
fn json_output_sorts_keys() {
    let mut sh = Shell::new();
    sh.set_format(OutputFormat::Json);
    let (h, r) = rows();
    let expected = "[\n  {\n    \"Id\": \"1\",\n    \"Name\": \"a\"\n  },\n  {\n    \"Id\": \"22\",\n    \"Name\": \"bb\"\n  }\n]\n";
    assert_eq!(sh.format_results(&h, &r), Some(s(expected)));
}

#[test]
fn table_output() {
    let sh = Shell::new();
    let (h, r) = rows();
    let expected = "┌──────┬────┐\n│ Name │ Id │\n├──────┼────┤\n│ a    │ 1  │\n│ bb   │ 22 │\n└──────┴────┘\n";
    assert_eq!(sh.format_results(&h, &r), Some(s(expected)));
}

#[test]
fn ascii_output() {
    let mut sh = Shell::new();
    sh.set_format(OutputFormat::Ascii);
    let (h, r) = rows();
    let expected = " Name | Id \n------+----\n a    | 1  \n bb   | 22 \n";
    assert_eq!(sh.format_results(&h, &r), Some(s(expected)));
}

#[test]
fn markdown_output() {
    let mut sh = Shell::new();
    sh.set_format(OutputFormat::Markdown);
    let (h, r) = rows();
    let expected = "| Name | Id |\n|------|----|\n| a    | 1  |\n| bb   | 22 |\n";
    assert_eq!(sh.format_results(&h, &r), Some(s(expected)));
}

#[test]
fn interactive_lines() {
    assert_eq!(interactive_line_action("  \t"), LineAction::Skip);
    assert_eq!(interactive_line_action(""), LineAction::Skip);
    assert_eq!(interactive_line_action("EXIT"), LineAction::Run(Command::Exit));
    assert_eq!(interactive_line_action("  select * from x"), LineAction::Query(s("  select * from x")));
    assert_eq!(interactive_line_action("  show x"), LineAction::Invalid);
    assert_eq!(interactive_line_action("\u{17f}elect x"), LineAction::Query(s("\u{17f}elect x")));
}

#[test]
fn script_lines() {
    assert_eq!(script_line_action("# a comment"), LineAction::Skip);
    assert_eq!(script_line_action("   "), LineAction::Skip);
    assert_eq!(script_line_action("  # indented comment"), LineAction::Skip);
    assert_eq!(script_line_action("  FORMAT csv  "), LineAction::Run(Command::Format(OutputFormat::Csv)));
    assert_eq!(script_line_action("\t\u{17f}elect 1 "), LineAction::Query(s("\u{17f}elect 1")));
    assert_eq!(script_line_action("bogus"), LineAction::Invalid);
}

#[test]
fn unparsed_lines() {
    assert_eq!(unparsed_line_action("SELECT X", "q"), LineAction::Query(s("q")));
    assert_eq!(unparsed_line_action("select x", "q"), LineAction::Invalid);
    assert_eq!(unparsed_line_action("SELEC", "q"), LineAction::Invalid);
}

#[test]
fn result_table_collects_rows() {
    let mut t = ResultTable::new();
    assert!(t.needs_headers());
    t.set_headers(vec![s("Name"), s("Id")]);
    assert!(!t.needs_headers());
    assert_eq!(t.headers(), &vec![s("Name"), s("Id")]);
    t.push_row(vec![s("a"), s("1")]);
    t.push_row(vec![s("bb"), s("22")]);
    let mut sh = Shell::new();
    sh.set_format(OutputFormat::Csv);
    assert_eq!(sh.format_table(&t), Some(s("Name,Id\na,1\nbb,22\n")));
    assert_eq!(sh.format_table(&ResultTable::new()), None);
}
