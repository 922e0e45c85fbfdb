//! Tab completion of inline command keywords.

use vstd::prelude::*;
use crate::text::{contains_char, has_prefix, string_views, to_uppercase, unicode_uppercase};

verus! {

/// The keywords offered for completion, in the order they are offered.
pub open spec fn inline_command_names() -> Seq<Seq<char>> {
    seq![
        "NAMESPACE"@,
        "CLASSES"@,
        "SHOW"@,
        "SELECT"@,
        "FORMAT"@,
        "CALL"@,
        "EXIT"@,
        "QUIT"@,
    ]
}

/// The commands of `commands` that begin with `prefix`, in order.
pub open spec fn commands_with_prefix(commands: Seq<Seq<char>>, prefix: Seq<char>) -> Seq<Seq<char>> {
    commands.filter(|c: Seq<char>| prefix.is_prefix_of(c))
}

/// The completions of `line`: while the line holds no space, the commands that
/// begin with the line in upper case; none once a space has been typed.
pub open spec fn completion_candidates(commands: Seq<Seq<char>>, line: Seq<char>) -> Seq<Seq<char>> {
    if line.contains(' ') {
        Seq::empty()
    } else {
        commands_with_prefix(commands, unicode_uppercase(line))
    }
}

/// Completes the first word of a shell line to a command keyword.
pub struct CommandCompleter {
    commands: Vec<String>,
}

impl View for CommandCompleter {
    type V = Seq<Seq<char>>;

    closed spec fn view(&self) -> Seq<Seq<char>> {
        string_views(self.commands@)
    }
}

impl CommandCompleter {
    /// A completer for the shell's inline commands.
    pub fn new() -> (c: CommandCompleter)
        ensures
            c@ == inline_command_names(),
            c@ == seq![
                seq!['N', 'A', 'M', 'E', 'S', 'P', 'A', 'C', 'E'],
                seq!['C', 'L', 'A', 'S', 'S', 'E', 'S'],
                seq!['S', 'H', 'O', 'W'],
                seq!['S', 'E', 'L', 'E', 'C', 'T'],
                seq!['F', 'O', 'R', 'M', 'A', 'T'],
                seq!['C', 'A', 'L', 'L'],
                seq!['E', 'X', 'I', 'T'],
                seq!['Q', 'U', 'I', 'T'],
            ],
    {
        let mut commands: Vec<String> = Vec::new();
        commands.push(String::from_str("NAMESPACE"));
        commands.push(String::from_str("CLASSES"));
        commands.push(String::from_str("SHOW"));
        commands.push(String::from_str("SELECT"));
        commands.push(String::from_str("FORMAT"));
        commands.push(String::from_str("CALL"));
        commands.push(String::from_str("EXIT"));
        commands.push(String::from_str("QUIT"));
        let c = CommandCompleter { commands };
        assert(c@ =~= inline_command_names());
        proof {
            reveal_strlit("NAMESPACE");
            reveal_strlit("CLASSES");
            reveal_strlit("SHOW");
            reveal_strlit("SELECT");
            reveal_strlit("FORMAT");
            reveal_strlit("CALL");
            reveal_strlit("EXIT");
            reveal_strlit("QUIT");
            assert(c@ =~~= seq![
                seq!['N', 'A', 'M', 'E', 'S', 'P', 'A', 'C', 'E'],
                seq!['C', 'L', 'A', 'S', 'S', 'E', 'S'],
                seq!['S', 'H', 'O', 'W'],
                seq!['S', 'E', 'L', 'E', 'C', 'T'],
                seq!['F', 'O', 'R', 'M', 'A', 'T'],
                seq!['C', 'A', 'L', 'L'],
                seq!['E', 'X', 'I', 'T'],
                seq!['Q', 'U', 'I', 'T'],
            ]);
        }
        c
    }

    /// The keywords that begin with `prefix`, in order.
    pub fn candidates_with_prefix(&self, prefix: &str) -> (r: Vec<String>)
        ensures
            string_views(r@) == commands_with_prefix(self@, prefix@),
    {
        let ghost pred = |c: Seq<char>| prefix@.is_prefix_of(c);
        let ghost views = string_views(self.commands@);
        let mut r: Vec<String> = Vec::new();
        let mut i: usize = 0;
        while i < self.commands.len()
            invariant
                i <= self.commands.len(),
                pred == (|c: Seq<char>| prefix@.is_prefix_of(c)),
                views == string_views(self.commands@),
                string_views(r@) == views.take(i as int).filter(pred),
            decreases self.commands.len() - i,
        {
            reveal_with_fuel(Seq::<_>::filter, 1);
            let ghost t = views.take(i + 1);
            assert(t.drop_last() =~= views.take(i as int));
            assert(t.last() == self.commands@[i as int]@);
            if has_prefix(self.commands[i].as_str(), prefix) {
                let ghost old_r = r@;
                let c = self.commands[i].clone();
                r.push(c);
                assert(r@ == old_r.push(c));
                assert(string_views(r@) =~= string_views(old_r).push(c@));
            }
            i = i + 1;
        }
        assert(views.take(self.commands.len() as int) =~= views);
        r
    }

    /// Completion of `line`: the position that the candidates replace from
    /// (always the start of the line) and the candidates.
    pub fn complete(&self, line: &str) -> (r: (usize, Vec<String>))
        ensures
            r.0 == 0,
            string_views(r.1@) == completion_candidates(self@, line@),
    {
        if !contains_char(line, ' ') {
            let up_line = to_uppercase(line);
            let candidates = self.candidates_with_prefix(up_line.as_str());
            return (0, candidates);
        }
        let none: Vec<String> = Vec::new();
        assert(string_views(none@) =~= Seq::<Seq<char>>::empty());
        (0, none)
    }
}


/// Every completion is one of the commands and begins with the line in upper
/// case, and every command that begins with it is offered.
pub proof fn law_candidates_match_line(commands: Seq<Seq<char>>, line: Seq<char>)
    ensures
        forall|i: int| 0 <= i < completion_candidates(commands, line).len() ==> {
            let c = #[trigger] completion_candidates(commands, line)[i];
            commands.contains(c) && unicode_uppercase(line).is_prefix_of(c)
        },
        !line.contains(' ') ==> forall|k: int| 0 <= k < commands.len() && unicode_uppercase(
            line,
        ).is_prefix_of(#[trigger] commands[k]) ==> completion_candidates(commands, line).contains(
            commands[k],
        ),
{
    broadcast use vstd::seq_lib::group_filter_ensures;

    let pred = |c: Seq<char>| unicode_uppercase(line).is_prefix_of(c);
    assert forall|i: int| 0 <= i < completion_candidates(commands, line).len() implies {
        let c = #[trigger] completion_candidates(commands, line)[i];
        commands.contains(c) && unicode_uppercase(line).is_prefix_of(c)
    } by {
        let f = commands.filter(pred);
        assert(f[i] == completion_candidates(commands, line)[i]);
        assert(f.contains(f[i]));
        commands.lemma_filter_contains_rev(pred, f[i]);
    }
}

} // verus!
