//! The grammar of inline commands.
//!
//! A command starts with a keyword, matched without regard to ASCII case.
//! Alternatives are tried in a fixed order and the first that matches wins:
//! `EXIT`/`QUIT`, `NAMESPACE`, `CLASSES`, `SHOW`, `MOF`, `SELECT`, `FORMAT`, `CALL`.

use vstd::prelude::*;
use crate::text::{
    alnum_end, alnum_len, ascii_fold, chars_of, fold_char, is_multispace, lemma_trim_skip_multispace, is_multispace_char, lemma_fold_keeps_classes, lemma_fold_keeps_kelvin_sign,
    lemma_same_case_alnum_len, lemma_same_case_skip, lemma_same_case_skip_multispace,
    lemma_same_case_starts_with, lemma_skip_multispace_suffix, same_but_ascii_case,
    skip_multispace, skip_multispace_from, starts_with_no_case, tag_at, trim, trim_str,
};

verus! {

/// An inline command of the shell.
#[derive(Debug, PartialEq, Clone)]
pub enum Command {
    Namespace(String),
    Classes,
    Show(String),
    MOF(String),
    Select(String),
    Format(OutputFormat),
    Call {
        method: String,
        args: Vec<(String, String)>,
        /// Class name or query
        target: String,
    },
    Exit,
}

/// How query results are printed.
#[derive(Debug, PartialEq, Eq, Clone, Copy, Structural)]
pub enum OutputFormat {
    Csv,
    Table,
    Json,
    Ascii,
    Markdown,
}

/// The mathematical value of a [`Command`]: its strings as character sequences.
pub enum CommandView {
    Namespace(Seq<char>),
    Classes,
    Show(Seq<char>),
    MOF(Seq<char>),
    Select(Seq<char>),
    Format(OutputFormat),
    Call { method: Seq<char>, args: Seq<(Seq<char>, Seq<char>)>, target: Seq<char> },
    Exit,
}

impl View for Command {
    type V = CommandView;

    open spec fn view(&self) -> CommandView {
        match self {
            Command::Namespace(s) => CommandView::Namespace(s@),
            Command::Classes => CommandView::Classes,
            Command::Show(s) => CommandView::Show(s@),
            Command::MOF(s) => CommandView::MOF(s@),
            Command::Select(s) => CommandView::Select(s@),
            Command::Format(f) => CommandView::Format(*f),
            Command::Call { method, args, target } => CommandView::Call {
                method: method@,
                args: args@.map_values(|p: (String, String)| (p.0@, p.1@)),
                target: target@,
            },
            Command::Exit => CommandView::Exit,
        }
    }
}

/// No alternative of the grammar matches the input.
#[derive(Debug, PartialEq, Eq, Clone, Copy)]
pub enum ParseError {
    NoMatch,
}

/// A parse result: what is left of the input, and the command.
pub type Parsed = Option<(Seq<char>, CommandView)>;

/// `tag` followed by at least one whitespace character.
pub open spec fn keyword_then_space(s: Seq<char>, tag: Seq<char>) -> bool {
    starts_with_no_case(s, tag) && s.len() > tag.len() && is_multispace(s[tag.len() as int])
}

pub open spec fn spec_parse_exit(s: Seq<char>) -> Parsed {
    if starts_with_no_case(s, "EXIT"@) {
        Some((s.skip("EXIT"@.len() as int), CommandView::Exit))
    } else if starts_with_no_case(s, "QUIT"@) {
        Some((s.skip("QUIT"@.len() as int), CommandView::Exit))
    } else {
        None
    }
}

/// The argument of a keyword that takes the rest of the line: the text after
/// the keyword and its whitespace, trimmed.
pub open spec fn rest_argument(s: Seq<char>, tag: Seq<char>) -> Seq<char> {
    trim(skip_multispace(s.skip(tag.len() as int)))
}

pub open spec fn spec_parse_namespace(s: Seq<char>) -> Parsed {
    if keyword_then_space(s, "NAMESPACE"@) {
        Some((Seq::empty(), CommandView::Namespace(rest_argument(s, "NAMESPACE"@))))
    } else {
        None
    }
}

pub open spec fn spec_parse_classes(s: Seq<char>) -> Parsed {
    if starts_with_no_case(s, "CLASSES"@) {
        Some((s.skip("CLASSES"@.len() as int), CommandView::Classes))
    } else {
        None
    }
}

pub open spec fn spec_parse_show(s: Seq<char>) -> Parsed {
    if keyword_then_space(s, "SHOW"@) {
        Some((Seq::empty(), CommandView::Show(rest_argument(s, "SHOW"@))))
    } else {
        None
    }
}

pub open spec fn spec_parse_mof(s: Seq<char>) -> Parsed {
    if keyword_then_space(s, "MOF"@) {
        Some((Seq::empty(), CommandView::MOF(rest_argument(s, "MOF"@))))
    } else {
        None
    }
}

/// `SELECT` takes the whole rest of the line as the query; the query is
/// rebuilt as `SELECT ` followed by the trimmed rest.
pub open spec fn spec_parse_select(s: Seq<char>) -> Parsed {
    if starts_with_no_case(s, "SELECT"@) {
        Some((Seq::empty(), CommandView::Select("SELECT "@ + trim(s.skip("SELECT"@.len() as int)))))
    } else {
        None
    }
}

/// The Kelvin sign, which Unicode lower-cases to `k`.
pub open spec fn is_kelvin_sign(c: char) -> bool {
    c == '\u{212A}'
}

/// A character of the input against a keyword letter, compared in Unicode
/// lower case: equal up to ASCII case, or the Kelvin sign against `K`.
pub open spec fn lowercase_match(c: char, t: char) -> bool {
    ascii_fold(c) == ascii_fold(t) || (is_kelvin_sign(c) && ascii_fold(t) == 107)
}

/// How many characters the keyword `MARKDOWN` takes from the start of `r`.
/// Keywords are compared letter by letter in Unicode lower case as far as the
/// input reaches, the input must hold at least as many UTF-8 bytes as the
/// keyword, and the keyword takes that many bytes. `MARKDOWN` is the one
/// keyword where this differs from an ASCII comparison: a Kelvin sign in place
/// of its `K` is three bytes long, so the keyword then takes six characters,
/// and a line of only six or seven characters can match it.
pub open spec fn spec_markdown_len(r: Seq<char>) -> Option<int> {
    let tag = "MARKDOWN"@;
    let kelvin = r.len() > 3 && is_kelvin_sign(r[3]);
    if (forall|i: int| 0 <= i < tag.len() && i < r.len() ==> #[trigger] lowercase_match(r[i], tag[i]))
        && (r.len() >= tag.len() || (kelvin && r.len() + 2 >= tag.len())) {
        Some(if kelvin { tag.len() - 2 } else { tag.len() as int })
    } else {
        None
    }
}

/// The output format named at the start of `r`, with what follows it.
pub open spec fn spec_format_name(r: Seq<char>) -> Option<(Seq<char>, OutputFormat)> {
    if starts_with_no_case(r, "CSV"@) {
        Some((r.skip("CSV"@.len() as int), OutputFormat::Csv))
    } else if starts_with_no_case(r, "TABLE"@) {
        Some((r.skip("TABLE"@.len() as int), OutputFormat::Table))
    } else if starts_with_no_case(r, "JSON"@) {
        Some((r.skip("JSON"@.len() as int), OutputFormat::Json))
    } else if starts_with_no_case(r, "ASCII"@) {
        Some((r.skip("ASCII"@.len() as int), OutputFormat::Ascii))
    } else if spec_markdown_len(r) is Some {
        Some((r.skip(spec_markdown_len(r)->0), OutputFormat::Markdown))
    } else {
        None
    }
}

pub open spec fn spec_parse_format(s: Seq<char>) -> Parsed {
    if keyword_then_space(s, "FORMAT"@) {
        match spec_format_name(skip_multispace(s.skip("FORMAT"@.len() as int))) {
            Some((rest, f)) => Some((rest, CommandView::Format(f))),
            None => None,
        }
    } else {
        None
    }
}

/// The target of `CALL <method> WITH <target>`: given the text after the
/// method name, the trimmed text after `WITH`, or empty when no `WITH` clause follows.
pub open spec fn spec_call_target(a: Seq<char>) -> Seq<char> {
    let w = skip_multispace(a);
    if a.len() > 0 && is_multispace(a[0]) && keyword_then_space(w, "WITH"@) {
        trim(skip_multispace(w.skip("WITH"@.len() as int)))
    } else {
        Seq::empty()
    }
}

pub open spec fn spec_parse_call(s: Seq<char>) -> Parsed {
    let r = skip_multispace(s.skip("CALL"@.len() as int));
    let m = alnum_len(r);
    if keyword_then_space(s, "CALL"@) && m > 0 {
        Some(
            (
                Seq::empty(),
                CommandView::Call {
                    method: r.take(m as int),
                    args: Seq::empty(),
                    target: spec_call_target(r.skip(m as int)),
                },
            ),
        )
    } else {
        None
    }
}

/// The grammar: the first alternative that matches.
pub open spec fn spec_parse_command(s: Seq<char>) -> Parsed {
    if spec_parse_exit(s) is Some {
        spec_parse_exit(s)
    } else if spec_parse_namespace(s) is Some {
        spec_parse_namespace(s)
    } else if spec_parse_classes(s) is Some {
        spec_parse_classes(s)
    } else if spec_parse_show(s) is Some {
        spec_parse_show(s)
    } else if spec_parse_mof(s) is Some {
        spec_parse_mof(s)
    } else if spec_parse_select(s) is Some {
        spec_parse_select(s)
    } else if spec_parse_format(s) is Some {
        spec_parse_format(s)
    } else {
        spec_parse_call(s)
    }
}

/// Whether `v` has a command-whitespace character at `i`.
fn space_at(v: &Vec<char>, i: usize) -> (r: bool)
    ensures
        r == (i < v.len() && is_multispace(v@[i as int])),
{
    i < v.len() && is_multispace_char(v[i])
}

/// Keyword `tag` at position `from` of `v`, followed by at least one whitespace
/// character; returns the position after the keyword.
fn keyword_space_at(v: &Vec<char>, from: usize, tag: &str) -> (r: Option<usize>)
    requires
        from <= v.len(),
    ensures
        r is Some <==> keyword_then_space(v@.skip(from as int), tag@),
        r matches Some(n) ==> n == from + tag@.len() && n < v.len(),
{
    if tag_at(v, from, tag) {
        let n = from + tag.unicode_len();
        if space_at(v, n) {
            return Some(n);
        }
    }
    None
}

/// The trimmed text from position `from` to the end of `input`.
fn rest_from(input: &str, v: &Vec<char>, from: usize) -> (r: String)
    requires
        v@ == input@,
        from <= v.len(),
    ensures
        r@ == trim(v@.skip(from as int)),
{
    let sub = input.substring_char(from, v.len());
    assert(sub@ =~= v@.skip(from as int));
    String::from_str(trim_str(sub))
}

/// `EXIT` or `QUIT`; returns the number of characters consumed.
fn parse_exit(v: &Vec<char>) -> (r: Option<(usize, Command)>)
    ensures
        spec_parse_exit(v@) matches Some((rest, c)) ==> r matches Some((n, cmd)) && n <= v.len()
            && v@.skip(n as int) == rest && cmd@ == c,
        spec_parse_exit(v@) is None ==> r is None,
{
    assert(v@.skip(0) =~= v@);
    if tag_at(v, 0, "EXIT") {
        Some(("EXIT".unicode_len(), Command::Exit))
    } else if tag_at(v, 0, "QUIT") {
        Some(("QUIT".unicode_len(), Command::Exit))
    } else {
        None
    }
}


/// A keyword whose argument is the rest of the line (`NAMESPACE`, `SHOW`, `MOF`).
fn parse_rest_keyword(input: &str, v: &Vec<char>, tag: &str) -> (r: Option<String>)
    requires
        v@ == input@,
    ensures
        r is Some <==> keyword_then_space(v@, tag@),
        r matches Some(a) ==> a@ == rest_argument(v@, tag@),
{
    assert(v@.skip(0) =~= v@);
    match keyword_space_at(v, 0, tag) {
        Some(n) => {
            let i = skip_multispace_from(v, n);
            Some(rest_from(input, v, i))
        },
        None => None,
    }
}

fn parse_namespace(input: &str, v: &Vec<char>) -> (r: Option<Command>)
    requires
        v@ == input@,
    ensures
        spec_parse_namespace(v@) matches Some((_, c)) ==> r matches Some(cmd) && cmd@ == c,
        spec_parse_namespace(v@) is None ==> r is None,
{
    match parse_rest_keyword(input, v, "NAMESPACE") {
        Some(a) => Some(Command::Namespace(a)),
        None => None,
    }
}

fn parse_classes(v: &Vec<char>) -> (r: Option<(usize, Command)>)
    ensures
        spec_parse_classes(v@) matches Some((rest, c)) ==> r matches Some((n, cmd)) && n <= v.len()
            && v@.skip(n as int) == rest && cmd@ == c,
        spec_parse_classes(v@) is None ==> r is None,
{
    assert(v@.skip(0) =~= v@);
    if tag_at(v, 0, "CLASSES") {
        Some(("CLASSES".unicode_len(), Command::Classes))
    } else {
        None
    }
}

fn parse_show(input: &str, v: &Vec<char>) -> (r: Option<Command>)
    requires
        v@ == input@,
    ensures
        spec_parse_show(v@) matches Some((_, c)) ==> r matches Some(cmd) && cmd@ == c,
        spec_parse_show(v@) is None ==> r is None,
{
    match parse_rest_keyword(input, v, "SHOW") {
        Some(a) => Some(Command::Show(a)),
        None => None,
    }
}

fn parse_mof(input: &str, v: &Vec<char>) -> (r: Option<Command>)
    requires
        v@ == input@,
    ensures
        spec_parse_mof(v@) matches Some((_, c)) ==> r matches Some(cmd) && cmd@ == c,
        spec_parse_mof(v@) is None ==> r is None,
{
    match parse_rest_keyword(input, v, "MOF") {
        Some(a) => Some(Command::MOF(a)),
        None => None,
    }
}

fn parse_select(input: &str, v: &Vec<char>) -> (r: Option<Command>)
    requires
        v@ == input@,
    ensures
        spec_parse_select(v@) matches Some((_, c)) ==> r matches Some(cmd) && cmd@ == c,
        spec_parse_select(v@) is None ==> r is None,
{
    assert(v@.skip(0) =~= v@);
    if tag_at(v, 0, "SELECT") {
        let n = "SELECT".unicode_len();
        let rest = rest_from(input, v, n);
        let query = String::from_str("SELECT ").concat(rest.as_str());
        Some(Command::Select(query))
    } else {
        None
    }
}

/// The keyword `MARKDOWN` at position `from`; returns the position after it.
fn markdown_at(v: &Vec<char>, from: usize) -> (r: Option<usize>)
    requires
        from <= v.len(),
    ensures
        spec_markdown_len(v@.skip(from as int)) matches Some(k) ==> (r matches Some(n) && n == from + k),
        spec_markdown_len(v@.skip(from as int)) is None ==> r is None,
        r matches Some(n) ==> from <= n <= v.len(),
{
    let ghost r0 = v@.skip(from as int);
    let tag = chars_of("MARKDOWN");
    proof {
        reveal_strlit("MARKDOWN");
    }
    let avail = v.len() - from;
    let kelvin = avail > 3 && v[from + 3] == '\u{212A}';
    let mut i: usize = 0;
    while i < tag.len() && i < avail
        invariant
            i <= tag.len(),
            tag@ == "MARKDOWN"@,
            avail == r0.len(),
            r0 == v@.skip(from as int),
            from <= v.len(),
            forall|j: int| 0 <= j < i && j < r0.len() ==> #[trigger] lowercase_match(r0[j], tag@[j]),
        decreases tag.len() - i,
    {
        let c = v[from + i];
        let t = tag[i];
        let same = fold_char(c) == fold_char(t) || (c == '\u{212A}' && fold_char(t) == 107);
        if !same {
            assert(!lowercase_match(r0[i as int], tag@[i as int]));
            return None;
        }
        i = i + 1;
    }
    if avail >= tag.len() || (kelvin && avail + 2 >= tag.len()) {
        if kelvin {
            Some(from + (tag.len() - 2))
        } else {
            Some(from + tag.len())
        }
    } else {
        None
    }
}

/// The output format named at position `from`; returns the position after the name.
fn parse_format_name(v: &Vec<char>, from: usize) -> (r: Option<(usize, OutputFormat)>)
    requires
        from <= v.len(),
    ensures
        spec_format_name(v@.skip(from as int)) matches Some((rest, f)) ==> r matches Some((n, g))
            && from <= n <= v.len() && v@.skip(n as int) == rest && g == f,
        spec_format_name(v@.skip(from as int)) is None ==> r is None,
{
    let ghost r0 = v@.skip(from as int);
    let (name, f) = if tag_at(v, from, "CSV") {
        ("CSV", OutputFormat::Csv)
    } else if tag_at(v, from, "TABLE") {
        ("TABLE", OutputFormat::Table)
    } else if tag_at(v, from, "JSON") {
        ("JSON", OutputFormat::Json)
    } else if tag_at(v, from, "ASCII") {
        ("ASCII", OutputFormat::Ascii)
    } else {
        return match markdown_at(v, from) {
            Some(n) => {
                assert(r0.skip(n - from) =~= v@.skip(n as int));
                Some((n, OutputFormat::Markdown))
            },
            None => None,
        };
    };
    let n = from + name.unicode_len();
    assert(r0.skip(name@.len() as int) =~= v@.skip(n as int));
    Some((n, f))
}

fn parse_format(v: &Vec<char>) -> (r: Option<(usize, Command)>)
    ensures
        spec_parse_format(v@) matches Some((rest, c)) ==> r matches Some((n, cmd)) && n <= v.len()
            && v@.skip(n as int) == rest && cmd@ == c,
        spec_parse_format(v@) is None ==> r is None,
{
    assert(v@.skip(0) =~= v@);
    match keyword_space_at(v, 0, "FORMAT") {
        Some(n) => {
            let i = skip_multispace_from(v, n);
            match parse_format_name(v, i) {
                Some((m, f)) => Some((m, Command::Format(f))),
                None => None,
            }
        },
        None => None,
    }
}

/// The target of a `CALL`, from position `e` just after the method name.
fn parse_call_target(input: &str, v: &Vec<char>, e: usize) -> (r: String)
    requires
        v@ == input@,
        e <= v.len(),
    ensures
        r@ == spec_call_target(v@.skip(e as int)),
{
    let ghost a = v@.skip(e as int);
    if space_at(v, e) {
        let w = skip_multispace_from(v, e);
        match keyword_space_at(v, w, "WITH") {
            Some(k) => {
                assert(v@.skip(w as int).skip("WITH"@.len() as int) =~= v@.skip(k as int));
                let j = skip_multispace_from(v, k);
                return rest_from(input, v, j);
            },
            None => {},
        }
    }
    String::new()
}

fn parse_call(input: &str, v: &Vec<char>) -> (r: Option<Command>)
    requires
        v@ == input@,
    ensures
        spec_parse_call(v@) matches Some((_, c)) ==> r matches Some(cmd) && cmd@ == c,
        spec_parse_call(v@) is None ==> r is None,
{
    assert(v@.skip(0) =~= v@);
    match keyword_space_at(v, 0, "CALL") {
        Some(n) => {
            let i = skip_multispace_from(v, n);
            let e = alnum_end(v, i);
            if e == i {
                return None;
            }
            let method = String::from_str(input.substring_char(i, e));
            assert(v@.skip(i as int).take(e - i) =~= v@.subrange(i as int, e as int));
            assert(v@.skip(i as int).skip(e - i) =~= v@.skip(e as int));
            let target = parse_call_target(input, v, e);
            let args: Vec<(String, String)> = Vec::new();
            let cmd = Command::Call { method, args, target };
            assert(cmd@ matches CommandView::Call { args, .. } && args =~= Seq::empty());
            Some(cmd)
        },
        None => None,
    }
}

/// Parses one inline command.
///
/// On success returns what is left of the input after the command and the
/// command; the alternatives are tried in the order of `spec_parse_command`.
pub fn parse_command<'a>(input: &'a str) -> (r: Result<(&'a str, Command), ParseError>)
    ensures
        spec_parse_command(input@) matches Some((rest, c)) ==> r matches Ok((out, cmd))
            && out@ == rest && cmd@ == c,
        spec_parse_command(input@) is None ==> r is Err,
{
    let v = chars_of(input);
    let len = v.len();
    let empty = input.substring_char(len, len);
    assert(empty@ =~= Seq::<char>::empty());
    if let Some((n, cmd)) = parse_exit(&v) {
        let rest = input.substring_char(n, len);
        assert(rest@ =~= v@.skip(n as int));
        return Ok((rest, cmd));
    }
    if let Some(cmd) = parse_namespace(input, &v) {
        return Ok((empty, cmd));
    }
    if let Some((n, cmd)) = parse_classes(&v) {
        let rest = input.substring_char(n, len);
        assert(rest@ =~= v@.skip(n as int));
        return Ok((rest, cmd));
    }
    if let Some(cmd) = parse_show(input, &v) {
        return Ok((empty, cmd));
    }
    if let Some(cmd) = parse_mof(input, &v) {
        return Ok((empty, cmd));
    }
    if let Some(cmd) = parse_select(input, &v) {
        return Ok((empty, cmd));
    }
    if let Some((n, cmd)) = parse_format(&v) {
        let rest = input.substring_char(n, len);
        assert(rest@ =~= v@.skip(n as int));
        return Ok((rest, cmd));
    }
    if let Some(cmd) = parse_call(input, &v) {
        return Ok((empty, cmd));
    }
    Err(ParseError::NoMatch)
}


/// Two commands of the same kind; two `FORMAT` commands must also name the same format.
pub open spec fn same_command_kind(a: CommandView, b: CommandView) -> bool {
    match (a, b) {
        (CommandView::Namespace(_), CommandView::Namespace(_)) => true,
        (CommandView::Classes, CommandView::Classes) => true,
        (CommandView::Show(_), CommandView::Show(_)) => true,
        (CommandView::MOF(_), CommandView::MOF(_)) => true,
        (CommandView::Select(_), CommandView::Select(_)) => true,
        (CommandView::Format(f), CommandView::Format(g)) => f == g,
        (CommandView::Call { .. }, CommandView::Call { .. }) => true,
        (CommandView::Exit, CommandView::Exit) => true,
        _ => false,
    }
}

/// Both parse results fail, or both succeed with commands of the same kind
/// that leave equally long rests.
pub open spec fn parsed_alike(p: Parsed, q: Parsed) -> bool {
    match (p, q) {
        (Some((r1, c1)), Some((r2, c2))) => r1.len() == r2.len() && same_command_kind(c1, c2),
        (None, None) => true,
        _ => false,
    }
}

proof fn lemma_keyword_then_space_same_case(s: Seq<char>, t: Seq<char>, tag: Seq<char>)
    requires
        same_but_ascii_case(s, t),
    ensures
        keyword_then_space(s, tag) == keyword_then_space(t, tag),
{
    lemma_same_case_starts_with(s, t, tag);
    if s.len() > tag.len() {
        lemma_fold_keeps_classes(s[tag.len() as int], t[tag.len() as int]);
    }
}

proof fn lemma_markdown_same_case(r1: Seq<char>, r2: Seq<char>)
    requires
        same_but_ascii_case(r1, r2),
    ensures
        spec_markdown_len(r1) == spec_markdown_len(r2),
{
    let tag = "MARKDOWN"@;
    if r1.len() > 3 {
        assert(ascii_fold(r1[3]) == ascii_fold(r2[3]));
        lemma_fold_keeps_kelvin_sign(r1[3], r2[3]);
    }
    assert forall|i: int| 0 <= i < tag.len() && i < r1.len() implies #[trigger] lowercase_match(
        r1[i],
        tag[i],
    ) == lowercase_match(r2[i], tag[i]) by {
        assert(ascii_fold(r1[i]) == ascii_fold(r2[i]));
        lemma_fold_keeps_kelvin_sign(r1[i], r2[i]);
    }
    if forall|i: int| 0 <= i < tag.len() && i < r1.len() ==> #[trigger] lowercase_match(r1[i], tag[i]) {
        assert forall|i: int| 0 <= i < tag.len() && i < r2.len() implies #[trigger] lowercase_match(
            r2[i],
            tag[i],
        ) by {
            assert(lowercase_match(r1[i], tag[i]));
        }
    }
    if forall|i: int| 0 <= i < tag.len() && i < r2.len() ==> #[trigger] lowercase_match(r2[i], tag[i]) {
        assert forall|i: int| 0 <= i < tag.len() && i < r1.len() implies #[trigger] lowercase_match(
            r1[i],
            tag[i],
        ) by {
            assert(lowercase_match(r2[i], tag[i]));
        }
    }
}

proof fn lemma_format_name_same_case(r1: Seq<char>, r2: Seq<char>)
    requires
        same_but_ascii_case(r1, r2),
    ensures
        match (spec_format_name(r1), spec_format_name(r2)) {
            (Some((a, f)), Some((b, g))) => a.len() == b.len() && f == g,
            (None, None) => true,
            _ => false,
        },
{
    lemma_same_case_starts_with(r1, r2, "CSV"@);
    lemma_same_case_starts_with(r1, r2, "TABLE"@);
    lemma_same_case_starts_with(r1, r2, "JSON"@);
    lemma_same_case_starts_with(r1, r2, "ASCII"@);
    lemma_markdown_same_case(r1, r2);
    reveal_strlit("MARKDOWN");
}

/// Inline commands are recognised without regard to the ASCII case of their
/// letters: two lines that differ only in that way parse to commands of the
/// same kind (the same format, for `FORMAT`) with equally long rests, or both fail.
pub proof fn law_keywords_ignore_ascii_case(s: Seq<char>, t: Seq<char>)
    requires
        same_but_ascii_case(s, t),
    ensures
        parsed_alike(spec_parse_command(s), spec_parse_command(t)),
{
    lemma_same_case_starts_with(s, t, "EXIT"@);
    lemma_same_case_starts_with(s, t, "QUIT"@);
    lemma_same_case_starts_with(s, t, "CLASSES"@);
    lemma_same_case_starts_with(s, t, "SELECT"@);
    lemma_keyword_then_space_same_case(s, t, "NAMESPACE"@);
    lemma_keyword_then_space_same_case(s, t, "SHOW"@);
    lemma_keyword_then_space_same_case(s, t, "MOF"@);
    lemma_keyword_then_space_same_case(s, t, "FORMAT"@);
    lemma_keyword_then_space_same_case(s, t, "CALL"@);
    if keyword_then_space(s, "FORMAT"@) {
        let n = "FORMAT"@.len() as int;
        lemma_same_case_skip(s, t, n);
        lemma_same_case_skip_multispace(s.skip(n), t.skip(n));
        lemma_format_name_same_case(skip_multispace(s.skip(n)), skip_multispace(t.skip(n)));
    }
    if keyword_then_space(s, "CALL"@) {
        let n = "CALL"@.len() as int;
        lemma_same_case_skip(s, t, n);
        lemma_same_case_skip_multispace(s.skip(n), t.skip(n));
        lemma_same_case_alnum_len(skip_multispace(s.skip(n)), skip_multispace(t.skip(n)));
    }
}

/// How much of `s` the keyword part of its command takes: the keyword itself,
/// and for the commands without an argument, all that the command consumes
/// (for `FORMAT`, the keyword, the spaces and the format name).
pub open spec fn keyword_extent(s: Seq<char>) -> int {
    match spec_parse_command(s) {
        Some((rest, c)) => match c {
            CommandView::Namespace(_) => "NAMESPACE"@.len() as int,
            CommandView::Show(_) => "SHOW"@.len() as int,
            CommandView::MOF(_) => "MOF"@.len() as int,
            CommandView::Select(_) => "SELECT"@.len() as int,
            CommandView::Call { .. } => "CALL"@.len() as int,
            _ => s.len() - rest.len(),
        },
        None => 0,
    }
}

/// Two lines that differ only in the ASCII case of the letters of the keyword
/// part of the command (and, for `FORMAT`, of the format name) parse to the
/// same command with the same rest.
pub proof fn law_keyword_case_does_not_matter(s: Seq<char>, t: Seq<char>)
    requires
        same_but_ascii_case(s, t),
        spec_parse_command(s) is Some,
        forall|i: int| keyword_extent(s) <= i < s.len() ==> s[i] == t[i],
    ensures
        spec_parse_command(t) == spec_parse_command(s),
{
    law_keywords_ignore_ascii_case(s, t);
    law_rest_is_suffix(s);
    law_rest_is_suffix(t);
    let n = keyword_extent(s);
    let (rest_s, c_s) = spec_parse_command(s)->0;
    let (rest_t, c_t) = spec_parse_command(t)->0;
    assert(0 <= n <= s.len());
    assert(s.skip(n) =~= t.skip(n));
    match c_s {
        CommandView::Namespace(_) => {
            assert(spec_parse_command(t) == spec_parse_namespace(t));
        },
        CommandView::Show(_) => {
            assert(spec_parse_command(t) == spec_parse_show(t));
        },
        CommandView::MOF(_) => {
            assert(spec_parse_command(t) == spec_parse_mof(t));
        },
        CommandView::Select(_) => {
            assert(spec_parse_command(t) == spec_parse_select(t));
        },
        CommandView::Call { .. } => {
            assert(spec_parse_command(t) == spec_parse_call(t));
        },
        _ => {
            assert(rest_s =~= rest_t);
        },
    }
}

proof fn reveal_keywords()
    ensures
        "EXIT"@ == seq!['E', 'X', 'I', 'T'],
        "QUIT"@ == seq!['Q', 'U', 'I', 'T'],
        "NAMESPACE"@ == seq!['N', 'A', 'M', 'E', 'S', 'P', 'A', 'C', 'E'],
        "CLASSES"@ == seq!['C', 'L', 'A', 'S', 'S', 'E', 'S'],
        "SHOW"@ == seq!['S', 'H', 'O', 'W'],
        "MOF"@ == seq!['M', 'O', 'F'],
        "SELECT"@ == seq!['S', 'E', 'L', 'E', 'C', 'T'],
        "SELECT "@ == seq!['S', 'E', 'L', 'E', 'C', 'T', ' '],
        "FORMAT"@ == seq!['F', 'O', 'R', 'M', 'A', 'T'],
        "CALL"@ == seq!['C', 'A', 'L', 'L'],
        "CSV"@ == seq!['C', 'S', 'V'],
        "TABLE"@ == seq!['T', 'A', 'B', 'L', 'E'],
        "JSON"@ == seq!['J', 'S', 'O', 'N'],
        "ASCII"@ == seq!['A', 'S', 'C', 'I', 'I'],
        "MARKDOWN"@ == seq!['M', 'A', 'R', 'K', 'D', 'O', 'W', 'N'],
{
    reveal_strlit("EXIT");
    reveal_strlit("QUIT");
    reveal_strlit("NAMESPACE");
    reveal_strlit("CLASSES");
    reveal_strlit("SHOW");
    reveal_strlit("MOF");
    reveal_strlit("SELECT");
    reveal_strlit("SELECT ");
    reveal_strlit("FORMAT");
    reveal_strlit("CALL");
    reveal_strlit("CSV");
    reveal_strlit("TABLE");
    reveal_strlit("JSON");
    reveal_strlit("ASCII");
    reveal_strlit("MARKDOWN");
}

/// Whether `s` starts with `word` without regard to ASCII case, stated letter by letter.
pub open spec fn begins_with_word(s: Seq<char>, word: Seq<char>) -> bool {
    word.len() <= s.len() && forall|i: int| 0 <= i < word.len() ==> #[trigger] ascii_fold(s[i]) == ascii_fold(word[i])
}

/// A line that starts with `SELECT` (in any ASCII case) is the query `SELECT `
/// followed by the whole rest of the line after those six letters, trimmed:
/// no character of that rest is lost or added, and nothing is left over.
pub proof fn law_select_keeps_whole_query(s: Seq<char>)
    requires
        begins_with_word(s, seq!['S', 'E', 'L', 'E', 'C', 'T']),
    ensures
        spec_parse_command(s) == Some(
            (Seq::<char>::empty(), CommandView::Select(seq!['S', 'E', 'L', 'E', 'C', 'T', ' '] + trim(s.skip(6)))),
        ),
{
    reveal_keywords();
    assert(ascii_fold(s[0]) == ascii_fold('S'));
    assert(ascii_fold(s[1]) == ascii_fold('E'));
}

/// A line that starts with `NAMESPACE`, `SHOW` or `MOF` (in any ASCII case)
/// followed by whitespace names as its argument the whole rest of the line
/// after the keyword, trimmed.
pub proof fn law_rest_of_line_arguments(s: Seq<char>)
    ensures
        begins_with_word(s, seq!['N', 'A', 'M', 'E', 'S', 'P', 'A', 'C', 'E']) && s.len() > 9
            && is_multispace(s[9]) ==> spec_parse_command(s) == Some(
            (Seq::<char>::empty(), CommandView::Namespace(trim(s.skip(9)))),
        ),
        begins_with_word(s, seq!['S', 'H', 'O', 'W']) && s.len() > 4 && is_multispace(s[4])
            ==> spec_parse_command(s) == Some((Seq::<char>::empty(), CommandView::Show(trim(s.skip(4))))),
        begins_with_word(s, seq!['M', 'O', 'F']) && s.len() > 3 && is_multispace(s[3])
            ==> spec_parse_command(s) == Some((Seq::<char>::empty(), CommandView::MOF(trim(s.skip(3))))),
{
    reveal_keywords();
    if begins_with_word(s, seq!['N', 'A', 'M', 'E', 'S', 'P', 'A', 'C', 'E']) && s.len() > 9
        && is_multispace(s[9]) {
        assert(ascii_fold(s[0]) == ascii_fold('N'));
        assert(starts_with_no_case(s, "NAMESPACE"@));
        lemma_trim_skip_multispace(s.skip(9));
    }
    if begins_with_word(s, seq!['S', 'H', 'O', 'W']) && s.len() > 4 && is_multispace(s[4]) {
        assert(ascii_fold(s[0]) == ascii_fold('S'));
        assert(ascii_fold(s[1]) == ascii_fold('H'));
        assert(starts_with_no_case(s, "SHOW"@));
        lemma_trim_skip_multispace(s.skip(4));
    }
    if begins_with_word(s, seq!['M', 'O', 'F']) && s.len() > 3 && is_multispace(s[3]) {
        assert(ascii_fold(s[0]) == ascii_fold('M'));
        assert(starts_with_no_case(s, "MOF"@));
        lemma_trim_skip_multispace(s.skip(3));
    }
}

/// `EXIT` and `QUIT` (in any ASCII case) exit and leave the rest of the line
/// after the four letters; `CLASSES` lists classes and leaves the rest after
/// its seven letters.
pub proof fn law_word_commands(s: Seq<char>)
    ensures
        begins_with_word(s, seq!['E', 'X', 'I', 'T']) ==> spec_parse_command(s) == Some(
            (s.skip(4), CommandView::Exit),
        ),
        begins_with_word(s, seq!['Q', 'U', 'I', 'T']) ==> spec_parse_command(s) == Some(
            (s.skip(4), CommandView::Exit),
        ),
        begins_with_word(s, seq!['C', 'L', 'A', 'S', 'S', 'E', 'S']) ==> spec_parse_command(s) == Some(
            (s.skip(7), CommandView::Classes),
        ),
{
    reveal_keywords();
    if begins_with_word(s, seq!['E', 'X', 'I', 'T']) {
        assert(starts_with_no_case(s, "EXIT"@));
    }
    if begins_with_word(s, seq!['Q', 'U', 'I', 'T']) {
        assert(ascii_fold(s[0]) == ascii_fold('Q'));
        assert(starts_with_no_case(s, "QUIT"@));
    }
    if begins_with_word(s, seq!['C', 'L', 'A', 'S', 'S', 'E', 'S']) {
        assert(ascii_fold(s[0]) == ascii_fold('C'));
        assert(starts_with_no_case(s, "CLASSES"@));
    }
}

/// `FORMAT`, whitespace and a format name (all in any ASCII case) select that
/// format and leave what follows the name.
pub proof fn law_format_names(s: Seq<char>)
    requires
        begins_with_word(s, seq!['F', 'O', 'R', 'M', 'A', 'T']),
        s.len() > 6,
        is_multispace(s[6]),
    ensures
        ({
            let r = skip_multispace(s.skip(6));
            &&& begins_with_word(r, seq!['C', 'S', 'V']) ==> spec_parse_command(s) == Some(
                (r.skip(3), CommandView::Format(OutputFormat::Csv)),
            )
            &&& begins_with_word(r, seq!['T', 'A', 'B', 'L', 'E']) ==> spec_parse_command(s) == Some(
                (r.skip(5), CommandView::Format(OutputFormat::Table)),
            )
            &&& begins_with_word(r, seq!['J', 'S', 'O', 'N']) ==> spec_parse_command(s) == Some(
                (r.skip(4), CommandView::Format(OutputFormat::Json)),
            )
            &&& begins_with_word(r, seq!['A', 'S', 'C', 'I', 'I']) ==> spec_parse_command(s) == Some(
                (r.skip(5), CommandView::Format(OutputFormat::Ascii)),
            )
            &&& begins_with_word(r, seq!['M', 'A', 'R', 'K', 'D', 'O', 'W', 'N']) ==> spec_parse_command(s)
                == Some((r.skip(8), CommandView::Format(OutputFormat::Markdown)))
        }),
{
    reveal_keywords();
    assert(ascii_fold(s[0]) == ascii_fold('F'));
    assert(keyword_then_space(s, "FORMAT"@));
    let r = skip_multispace(s.skip(6));
    if begins_with_word(r, seq!['C', 'S', 'V']) {
        assert(starts_with_no_case(r, "CSV"@));
    }
    if begins_with_word(r, seq!['T', 'A', 'B', 'L', 'E']) {
        assert(ascii_fold(r[0]) == ascii_fold('T'));
        assert(starts_with_no_case(r, "TABLE"@));
    }
    if begins_with_word(r, seq!['J', 'S', 'O', 'N']) {
        assert(ascii_fold(r[0]) == ascii_fold('J'));
        assert(starts_with_no_case(r, "JSON"@));
    }
    if begins_with_word(r, seq!['A', 'S', 'C', 'I', 'I']) {
        assert(ascii_fold(r[0]) == ascii_fold('A'));
        assert(starts_with_no_case(r, "ASCII"@));
    }
    if begins_with_word(r, seq!['M', 'A', 'R', 'K', 'D', 'O', 'W', 'N']) {
        assert(ascii_fold(r[0]) == ascii_fold('M'));
        assert(ascii_fold(r[3]) == ascii_fold('K'));
        assert(!is_kelvin_sign(r[3]));
        assert forall|i: int| 0 <= i < 8 && i < r.len() implies #[trigger] lowercase_match(
            r[i],
            "MARKDOWN"@[i],
        ) by {
            assert(ascii_fold(r[i]) == ascii_fold(seq!['M', 'A', 'R', 'K', 'D', 'O', 'W', 'N'][i]));
        }
    }
}

/// `CALL`, whitespace and a method name (the letters and digits that follow):
/// the method is that name, and the target is what follows `WITH` after it,
/// trimmed, or empty without a `WITH` clause.
pub proof fn law_call_method(s: Seq<char>)
    requires
        begins_with_word(s, seq!['C', 'A', 'L', 'L']),
        s.len() > 4,
        is_multispace(s[4]),
        alnum_len(skip_multispace(s.skip(4))) > 0,
    ensures
        ({
            let r = skip_multispace(s.skip(4));
            let m = alnum_len(r) as int;
            spec_parse_command(s) == Some(
                (
                    Seq::<char>::empty(),
                    CommandView::Call {
                        method: r.take(m),
                        args: Seq::empty(),
                        target: spec_call_target(r.skip(m)),
                    },
                ),
            )
        }),
{
    reveal_keywords();
    assert(ascii_fold(s[0]) == ascii_fold('C'));
    assert(ascii_fold(s[1]) == ascii_fold('A'));
    assert(ascii_fold(s[2]) == ascii_fold('L'));
    assert(keyword_then_space(s, "CALL"@));
}

/// The target of a `CALL`: when whitespace, `WITH` (in any ASCII case) and
/// whitespace follow the method name, it is the rest of the line after `WITH`,
/// trimmed; otherwise it is empty.
pub proof fn law_call_target(a: Seq<char>)
    ensures
        ({
            let w = skip_multispace(a);
            &&& (a.len() > 0 && is_multispace(a[0]) && begins_with_word(w, seq!['W', 'I', 'T', 'H'])
                && w.len() > 4 && is_multispace(w[4])) ==> spec_call_target(a) == trim(w.skip(4))
            &&& !(a.len() > 0 && is_multispace(a[0]) && begins_with_word(w, seq!['W', 'I', 'T', 'H'])
                && w.len() > 4 && is_multispace(w[4])) ==> spec_call_target(a) == Seq::<char>::empty()
        }),
{
    reveal_strlit("WITH");
    let w = skip_multispace(a);
    lemma_trim_skip_multispace(w.skip(4));
    assert("WITH"@ =~= seq!['W', 'I', 'T', 'H']);
}

/// What a successful parse leaves of the input is the input's tail.
pub proof fn law_rest_is_suffix(s: Seq<char>)
    ensures
        spec_parse_command(s) matches Some((rest, _)) ==> rest.len() <= s.len() && rest == s.skip(
            s.len() - rest.len(),
        ),
{
    assert(s.skip(s.len() as int) =~= Seq::<char>::empty());
    if spec_parse_exit(s) is Some {
        if starts_with_no_case(s, "EXIT"@) {
            assert(s.skip("EXIT"@.len() as int) =~= s.skip(s.len() - s.skip("EXIT"@.len() as int).len()));
        } else {
            assert(s.skip("QUIT"@.len() as int) =~= s.skip(s.len() - s.skip("QUIT"@.len() as int).len()));
        }
    } else if spec_parse_classes(s) is Some {
        assert(s.skip("CLASSES"@.len() as int) =~= s.skip(
            s.len() - s.skip("CLASSES"@.len() as int).len(),
        ));
    } else if spec_parse_format(s) is Some {
        let n = "FORMAT"@.len() as int;
        let r = skip_multispace(s.skip(n));
        lemma_skip_multispace_suffix(s.skip(n));
        let k = s.skip(n).len() - r.len();
        assert(r =~= s.skip(n + k));
        reveal_strlit("MARKDOWN");
        if let Some((rest, _)) = spec_format_name(r) {
            assert(rest.len() <= r.len());
            assert(rest =~= s.skip(s.len() - rest.len()));
        }
    }
}

/// A `SELECT` command always carries a query that starts with `SELECT `.
pub proof fn law_select_query_prefix(s: Seq<char>)
    ensures
        spec_parse_command(s) matches Some((_, CommandView::Select(q))) ==> "SELECT "@.is_prefix_of(q),
{
    if spec_parse_command(s) matches Some((_, CommandView::Select(q))) {
        assert(spec_parse_select(s) is Some);
        let t = trim(s.skip("SELECT"@.len() as int));
        assert(("SELECT "@ + t).subrange(0, "SELECT "@.len() as int) =~= "SELECT "@);
    }
}

} // verus!
