//! The shell's state and its decisions: what each inline command asks the
//! WMI side to do, how each input line is handled, and what a query prints.
//!
//! The WMI connection and the terminal stay with the caller, which performs
//! the [`Action`] or [`LineAction`] it is given and reports back.

use vstd::prelude::*;
use crate::output::{grid_views, render_rows, spec_plain_output};
use crate::parser::{parse_command, spec_parse_command, Command, CommandView, OutputFormat};
use crate::text::{has_prefix, string_views, to_uppercase, trim, trim_str, unicode_uppercase};

verus! {

/// The namespace the shell starts in.
pub open spec fn default_namespace() -> Seq<char> {
    "ROOT\\CIMV2"@
}

/// The session state of the shell: the namespace it is connected to and the
/// format in which it prints query results.
pub struct Shell {
    pub namespace: String,
    pub format: OutputFormat,
}

/// What the caller must do for a command.
#[derive(Debug, PartialEq, Clone)]
pub enum Action {
    /// Connect to this namespace; on success report it with [`Shell::namespace_changed`].
    Connect(String),
    /// Print the name of every class of the namespace.
    ListClasses,
    /// Print the property names of this class.
    ShowProperties(String),
    /// Print the MOF text of this class.
    ShowMof(String),
    /// Run this WQL query and print its rows with [`Shell::format_results`].
    Query(String),
    /// Print this line.
    Print(String),
    /// Leave the program.
    Exit,
    /// Nothing more to do.
    Nothing,
}

/// What the caller must do with one input line.
#[derive(Debug, PartialEq, Clone)]
pub enum LineAction {
    /// Ignore the line.
    Skip,
    /// Execute this command with [`Shell::execute_command`].
    Run(Command),
    /// Run this text as a WQL query.
    Query(String),
    /// Report the line as an invalid command.
    Invalid,
}

/// The mathematical value of the session state.
pub struct ShellView {
    pub namespace: Seq<char>,
    pub format: OutputFormat,
}

impl View for Shell {
    type V = ShellView;

    open spec fn view(&self) -> ShellView {
        ShellView { namespace: self.namespace@, format: self.format }
    }
}

/// The mathematical value of an [`Action`].
pub enum ActionView {
    Connect(Seq<char>),
    ListClasses,
    ShowProperties(Seq<char>),
    ShowMof(Seq<char>),
    Query(Seq<char>),
    Print(Seq<char>),
    Exit,
    Nothing,
}

impl View for Action {
    type V = ActionView;

    open spec fn view(&self) -> ActionView {
        match self {
            Action::Connect(s) => ActionView::Connect(s@),
            Action::ListClasses => ActionView::ListClasses,
            Action::ShowProperties(s) => ActionView::ShowProperties(s@),
            Action::ShowMof(s) => ActionView::ShowMof(s@),
            Action::Query(s) => ActionView::Query(s@),
            Action::Print(s) => ActionView::Print(s@),
            Action::Exit => ActionView::Exit,
            Action::Nothing => ActionView::Nothing,
        }
    }
}

/// The state after `cmd` and the work it leaves to the caller. `FORMAT`
/// changes the output format; every other command leaves the state as it is.
/// `NAMESPACE` asks for a connection, and the namespace changes only once the
/// caller reports it; `CALL` only prints that it is not implemented.
pub open spec fn spec_execute(state: ShellView, cmd: CommandView) -> (ShellView, ActionView) {
    let next = ShellView { namespace: state.namespace, format: format_after(state.format, cmd) };
    let action = match cmd {
        CommandView::Namespace(ns) => ActionView::Connect(ns),
        CommandView::Classes => ActionView::ListClasses,
        CommandView::Show(c) => ActionView::ShowProperties(c),
        CommandView::MOF(c) => ActionView::ShowMof(c),
        CommandView::Select(q) => ActionView::Query(q),
        CommandView::Format(_) => ActionView::Nothing,
        CommandView::Call { method, target, .. } => ActionView::Print(call_message(method, target)),
        CommandView::Exit => ActionView::Exit,
    };
    (next, action)
}

/// A `SELECT` command runs exactly its query, in the state it found: the
/// caller prints the rows with the same format as for that query given directly.
pub proof fn law_select_runs_its_query(state: ShellView, q: Seq<char>)
    ensures
        spec_execute(state, CommandView::Select(q)) == (state, ActionView::Query(q)),
{
}

/// `FORMAT f` switches the output format to `f`, whatever it was, keeps the
/// namespace and leaves nothing more to do; every other command keeps the
/// whole state.
pub proof fn law_format_command_sets_format(state: ShellView, cmd: CommandView)
    ensures
        cmd matches CommandView::Format(f) ==> spec_execute(state, cmd) == (
            ShellView { namespace: state.namespace, format: f },
            ActionView::Nothing,
        ),
        !(cmd is Format) ==> spec_execute(state, cmd).0 == state,
{
}

/// The work each command names: `NAMESPACE` connects to its namespace,
/// `CLASSES`, `SHOW` and `MOF` list, show and print the MOF of their class,
/// `SELECT` runs its query, `CALL` prints that calling its method on its
/// target is not implemented, and `EXIT` leaves.
pub proof fn law_command_actions(state: ShellView, cmd: CommandView)
    ensures
        cmd matches CommandView::Namespace(ns) ==> spec_execute(state, cmd).1 == ActionView::Connect(ns),
        cmd is Classes ==> spec_execute(state, cmd).1 == ActionView::ListClasses,
        cmd matches CommandView::Show(c) ==> spec_execute(state, cmd).1 == ActionView::ShowProperties(c),
        cmd matches CommandView::MOF(c) ==> spec_execute(state, cmd).1 == ActionView::ShowMof(c),
        cmd matches CommandView::Select(q) ==> spec_execute(state, cmd).1 == ActionView::Query(q),
        cmd matches CommandView::Call { method, target, .. } ==> spec_execute(state, cmd).1
            == ActionView::Print("Calling method "@ + method + " on "@ + target + " (Not implemented)"@),
        cmd is Exit ==> spec_execute(state, cmd).1 == ActionView::Exit,
{
}

/// No command changes the namespace by itself; only a reported connection does.
pub proof fn law_commands_keep_namespace(state: ShellView, cmd: CommandView)
    ensures
        spec_execute(state, cmd).0.namespace == state.namespace,
{
}

/// The line printed for `CALL`, whose execution is not implemented.
pub open spec fn call_message(method: Seq<char>, target: Seq<char>) -> Seq<char> {
    "Calling method "@ + method + " on "@ + target + " (Not implemented)"@
}

/// The prompt shown before each interactive line.
pub open spec fn prompt_text(namespace: Seq<char>) -> Seq<char> {
    namespace + " >> "@
}

/// The output format after `cmd`, given the format before it.
pub open spec fn format_after(format: OutputFormat, cmd: CommandView) -> OutputFormat {
    match cmd {
        CommandView::Format(f) => f,
        _ => format,
    }
}

/// The output format after executing `cmds` in order, starting from `format`.
pub open spec fn format_after_all(format: OutputFormat, cmds: Seq<CommandView>) -> OutputFormat
    decreases cmds.len(),
{
    if cmds.len() == 0 {
        format
    } else {
        format_after(format_after_all(format, cmds.drop_last()), cmds.last())
    }
}

/// Only `FORMAT` commands change the output format: after a run of commands
/// with none among them, the format is the one before.
pub proof fn law_format_kept_without_format_command(format: OutputFormat, cmds: Seq<CommandView>)
    requires
        forall|j: int| 0 <= j < cmds.len() ==> !(#[trigger] cmds[j] is Format),
    ensures
        format_after_all(format, cmds) == format,
    decreases cmds.len(),
{
    if cmds.len() > 0 {
        assert(!(cmds[cmds.len() - 1] is Format));
        law_format_kept_without_format_command(format, cmds.drop_last());
    }
}

/// The last `FORMAT` command of a run decides the output format after it.
pub proof fn law_last_format_command_wins(format: OutputFormat, cmds: Seq<CommandView>, i: int)
    requires
        0 <= i < cmds.len(),
        cmds[i] is Format,
        forall|j: int| i < j < cmds.len() ==> !(#[trigger] cmds[j] is Format),
    ensures
        format_after_all(format, cmds) == cmds[i]->Format_0,
    decreases cmds.len(),
{
    if i < cmds.len() - 1 {
        assert(!(cmds[cmds.len() - 1] is Format));
        law_last_format_command_wins(format, cmds.drop_last(), i);
    }
}

impl Shell {
    /// A shell in the default namespace that prints results as tables.
    pub fn new() -> (s: Shell)
        ensures
            s.namespace@ == default_namespace(),
            s.namespace@ == seq!['R', 'O', 'O', 'T', '\\', 'C', 'I', 'M', 'V', '2'],
            s.format == OutputFormat::Table,
    {
        proof {
            reveal_strlit("ROOT\\CIMV2");
        }
        Shell { namespace: String::from_str("ROOT\\CIMV2"), format: OutputFormat::Table }
    }

    pub fn set_format(&mut self, format: OutputFormat)
        ensures
            final(self).format == format,
            final(self).namespace == old(self).namespace,
    {
        self.format = format;
    }

    /// Records that the connection to `namespace` succeeded.
    pub fn namespace_changed(&mut self, namespace: String)
        ensures
            final(self).namespace == namespace,
            final(self).format == old(self).format,
    {
        self.namespace = namespace;
    }

    pub fn prompt(&self) -> (r: String)
        ensures
            r@ == prompt_text(self.namespace@),
            r@ == self.namespace@ + seq![' ', '>', '>', ' '],
    {
        proof {
            reveal_strlit(" >> ");
        }
        let r = self.namespace.clone().concat(" >> ");
        r
    }

    /// Executes `cmd` as far as the session state goes: `FORMAT` changes the
    /// output format here; every other command leaves the state as it is and
    /// names the work that the caller must do.
    pub fn execute_command(&mut self, cmd: Command) -> (r: Action)
        ensures
            final(self)@ == spec_execute(old(self)@, cmd@).0,
            r@ == spec_execute(old(self)@, cmd@).1,
            cmd@ matches CommandView::Format(f) ==> final(self).format == f && r == Action::Nothing
                && final(self).namespace == old(self).namespace,
            !(cmd@ is Format) ==> *final(self) == *old(self),
    {
        match cmd {
            Command::Namespace(ns) => Action::Connect(ns),
            Command::Classes => Action::ListClasses,
            Command::Show(class) => Action::ShowProperties(class),
            Command::MOF(class) => Action::ShowMof(class),
            Command::Select(query) => Action::Query(query),
            Command::Format(f) => {
                self.format = f;
                Action::Nothing
            },
            Command::Call { method, target, .. } => {
                let m = String::from_str("Calling method ").concat(method.as_str()).concat(
                    " on ",
                ).concat(target.as_str()).concat(" (Not implemented)");
                Action::Print(m)
            },
            Command::Exit => Action::Exit,
        }
    }

    /// The text that a collected query result prints in the shell's current format.
    pub fn format_table(&self, table: &ResultTable) -> (r: Option<String>)
        ensures
            table@.rows.len() == 0 ==> r is None,
            table@.rows.len() > 0 ==> (r matches Some(text) && text@ == spec_plain_output(
                self.format,
                table@.headers,
                table@.rows,
            )),
    {
        proof {
            use_type_invariant(table);
        }
        self.format_results(&table.headers, &table.rows)
    }

    /// The text that a query result prints in the shell's current format.
    pub fn format_results(&self, headers: &Vec<String>, rows: &Vec<Vec<String>>) -> (r: Option<String>)
        requires
            self.format == OutputFormat::Json ==> forall|k: int|
                0 <= k < rows.len() ==> #[trigger] rows@[k].len() >= headers.len(),
        ensures
            rows.len() == 0 ==> r is None,
            rows.len() > 0 ==> (r matches Some(text) && text@ == spec_plain_output(
                self.format,
                string_views(headers@),
                grid_views(rows@),
            )),
    {
        render_rows(self.format, headers, rows)
    }
}

/// The rows of a query result while they are collected: the property names of
/// the first object become the headers, and every object gives one row with a
/// value for each header.
pub struct ResultTable {
    started: bool,
    headers: Vec<String>,
    rows: Vec<Vec<String>>,
}

/// The mathematical value of a [`ResultTable`].
pub struct ResultTableView {
    /// Whether the headers have been set, by the first object.
    pub started: bool,
    pub headers: Seq<Seq<char>>,
    pub rows: Seq<Seq<Seq<char>>>,
}

impl View for ResultTable {
    type V = ResultTableView;

    closed spec fn view(&self) -> ResultTableView {
        ResultTableView {
            started: self.started,
            headers: string_views(self.headers@),
            rows: grid_views(self.rows@),
        }
    }
}

impl ResultTable {
    /// Every row holds one value per header, and there are neither headers
    /// nor rows before the first object.
    #[verifier::type_invariant]
    spec fn well_formed(self) -> bool {
        &&& forall|k: int| 0 <= k < self.rows.len() ==> #[trigger] self.rows@[k].len() == self.headers.len()
        &&& !self.started ==> self.headers.len() == 0 && self.rows.len() == 0
    }

    /// A table before the first object.
    pub fn new() -> (t: ResultTable)
        ensures
            !t@.started,
            t@.headers.len() == 0,
            t@.rows.len() == 0,
    {
        let t = ResultTable { started: false, headers: Vec::new(), rows: Vec::new() };
        assert(string_views(t.headers@) =~= Seq::<Seq<char>>::empty());
        assert(grid_views(t.rows@) =~= Seq::<Seq<Seq<char>>>::empty());
        t
    }

    /// Whether the next object is the first, whose property names give the headers.
    pub fn needs_headers(&self) -> (r: bool)
        ensures
            r == !self@.started,
    {
        !self.started
    }

    /// Sets the headers from the property names of the first object.
    pub fn set_headers(&mut self, names: Vec<String>)
        requires
            !old(self)@.started,
        ensures
            final(self)@.started,
            final(self)@.headers == string_views(names@),
            final(self)@.rows.len() == 0,
    {
        proof {
            use_type_invariant(&*self);
        }
        self.started = true;
        self.headers = names;
    }

    pub fn headers(&self) -> (r: &Vec<String>)
        ensures
            string_views(r@) == self@.headers,
    {
        &self.headers
    }

    /// Adds the row of an object: one value per header, in header order.
    pub fn push_row(&mut self, row: Vec<String>)
        requires
            old(self)@.started,
            row.len() == old(self)@.headers.len(),
        ensures
            final(self)@.started,
            final(self)@.headers == old(self)@.headers,
            final(self)@.rows == old(self)@.rows.push(string_views(row@)),
    {
        proof {
            use_type_invariant(&*self);
        }
        let ghost old_rows = self.rows@;
        let mut rows: Vec<Vec<String>> = Vec::new();
        std::mem::swap(&mut rows, &mut self.rows);
        rows.push(row);
        assert(rows@ == old_rows.push(row));
        self.rows = rows;
        assert(grid_views(self.rows@) =~= grid_views(old_rows).push(string_views(row@)));
    }
}

/// An upper-cased line asks for a query exactly when its first six
/// characters are `SELECT`.
pub proof fn law_query_lines_start_with_select(upper: Seq<char>)
    ensures
        asks_for_query(upper) <==> upper.len() >= 6 && upper.take(6) == seq!['S', 'E', 'L', 'E', 'C', 'T'],
{
    reveal_strlit("SELECT");
    let w = seq!['S', 'E', 'L', 'E', 'C', 'T'];
    assert("SELECT"@ =~= w);
    if upper.len() >= 6 && upper.take(6) == w {
        assert(upper.subrange(0, 6) =~= upper.take(6));
        assert(w.is_prefix_of(upper));
    }
    if asks_for_query(upper) {
        assert(w.is_prefix_of(upper));
        assert(upper.take(6) =~= upper.subrange(0, 6));
    }
}

/// Whether an upper-cased line asks for a query.
pub open spec fn asks_for_query(upper: Seq<char>) -> bool {
    "SELECT"@.is_prefix_of(upper)
}

/// The action for a line that no command matches, given the line in upper
/// case: a query of `query` when it starts with `SELECT`, else invalid.
pub fn unparsed_line_action(upper: &str, query: &str) -> (r: LineAction)
    ensures
        asks_for_query(upper@) ==> (r matches LineAction::Query(q) && q@ == query@),
        !asks_for_query(upper@) ==> r == LineAction::Invalid,
{
    if has_prefix(upper, "SELECT") {
        LineAction::Query(String::from_str(query))
    } else {
        LineAction::Invalid
    }
}

/// The action for a line typed at the interactive prompt. Blank lines are
/// skipped; a line is parsed as it was typed; a line that does not parse is
/// still run as a query, as typed, when its trimmed upper-case form starts with `SELECT`.
pub fn interactive_line_action(line: &str) -> (r: LineAction)
    ensures
        trim(line@).len() == 0 ==> r == LineAction::Skip,
        trim(line@).len() > 0 ==> match spec_parse_command(line@) {
            Some((_, c)) => r matches LineAction::Run(cmd) && cmd@ == c,
            None => if asks_for_query(unicode_uppercase(trim(line@))) {
                r matches LineAction::Query(q) && q@ == line@
            } else {
                r == LineAction::Invalid
            },
        },
{
    let trimmed = trim_str(line);
    if trimmed.unicode_len() == 0 {
        return LineAction::Skip;
    }
    match parse_command(line) {
        Ok((_, cmd)) => LineAction::Run(cmd),
        Err(_) => {
            let upper = to_uppercase(trimmed);
            unparsed_line_action(upper.as_str(), line)
        },
    }
}

/// The action for a line of a script. The line is trimmed first; blank lines
/// and comments (starting with `#`) are skipped; a trimmed line that does not
/// parse is still run as a query when its upper-case form starts with `SELECT`.
pub fn script_line_action(line: &str) -> (r: LineAction)
    ensures
        ({
            let t = trim(line@);
            &&& (t.len() == 0 || t[0] == '#') ==> r == LineAction::Skip
            &&& !(t.len() == 0 || t[0] == '#') ==> match spec_parse_command(t) {
                Some((_, c)) => r matches LineAction::Run(cmd) && cmd@ == c,
                None => if asks_for_query(unicode_uppercase(t)) {
                    r matches LineAction::Query(q) && q@ == t
                } else {
                    r == LineAction::Invalid
                },
            }
        }),
{
    let trimmed = trim_str(line);
    if trimmed.unicode_len() == 0 || trimmed.get_char(0) == '#' {
        return LineAction::Skip;
    }
    match parse_command(trimmed) {
        Ok((_, cmd)) => LineAction::Run(cmd),
        Err(_) => {
            let upper = to_uppercase(trimmed);
            unparsed_line_action(upper.as_str(), trimmed)
        },
    }
}

} // verus!
