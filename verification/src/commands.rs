//! Command lists: the commands a descriptor field holds, in the order in which
//! they are to be run, and the shell that runs them.

use vstd::prelude::*;
use vstd::string::StringExecFns;
use crate::platform::Platform;
use crate::text::{
    is_white_space, lemma_lines, lemma_split_pieces, lemma_trim, lines, split, split_lines,
    split_on, to_chars, to_text, trim, trim_from, trimmed, views,
};

verus! {

/// A piece of a line is a command unless nothing is left of it.
pub open spec fn is_command() -> spec_fn(Seq<char>) -> bool {
    |piece: Seq<char>| piece.len() > 0
}

/// Removes the white space around a piece of a line.
pub open spec fn trimming() -> spec_fn(Seq<char>) -> Seq<char> {
    |piece: Seq<char>| trim(piece)
}

/// The commands on one line, from left to right: the pieces between commas,
/// without the white space around them, but for those that are empty.
pub open spec fn line_commands(line: Seq<char>) -> Seq<Seq<char>> {
    split(line, ',').map_values(trimming()).filter(is_command())
}

/// The commands of each of the given lines, from the first line to the last.
pub open spec fn commands_of() -> spec_fn(Seq<char>) -> Seq<Seq<char>> {
    |line: Seq<char>| line_commands(line)
}

/// The commands of a command list in the order in which they run: line by
/// line from the top, and within a line from left to right.
pub open spec fn command_sequence(list: Seq<char>) -> Seq<Seq<char>> {
    lines(list).map_values(commands_of()).flatten()
}

/// What holds of every command of a command list: it is not empty, holds
/// neither a comma nor a line feed, and neither begins nor ends with white
/// space.
pub open spec fn is_clean(command: Seq<char>) -> bool {
    &&& command.len() > 0
    &&& !command.contains(',')
    &&& !command.contains('\n')
    &&& !is_white_space(command.first())
    &&& !is_white_space(command.last())
}

/// Every command on a line that holds no line feed is clean.
pub proof fn lemma_line_commands_are_clean(line: Seq<char>)
    requires
        !line.contains('\n'),
    ensures
        forall|i: int|
            0 <= i < line_commands(line).len() ==> is_clean(#[trigger] line_commands(line)[i]),
{
    let pieces = split(line, ',');
    let stripped = pieces.map_values(trimming());
    lemma_split_pieces(line, ',');
    assert forall|i: int| 0 <= i < line_commands(line).len() implies is_clean(
        #[trigger] line_commands(line)[i],
    ) by {
        let command = line_commands(line)[i];
        stripped.lemma_filter_pred(is_command(), i);
        assert(stripped.filter(is_command()).contains(command));
        stripped.lemma_filter_contains_rev(is_command(), command);
        let k = choose|k: int| 0 <= k < stripped.len() && stripped[k] == command;
        let piece = pieces[k];
        lemma_trim(piece);
        assert forall|j: int| 0 <= j < command.len() implies command[j] != ',' && command[j]
            != '\n' by {
            assert(command[j] == pieces[k][trim_from(piece) + j]);
        }
    }
}

/// Every command of a command list is clean.
pub proof fn lemma_commands_are_clean(list: Seq<char>)
    ensures
        forall|i: int|
            0 <= i < command_sequence(list).len() ==> is_clean(#[trigger] command_sequence(list)[i]),
{
    lemma_lines(list);
    assert forall|k: int| 0 <= k < lines(list).len() implies !(#[trigger] lines(list)[k]).contains(
        '\n',
    ) by {
        if lines(list)[k].contains('\n') {
            let j = choose|j: int| 0 <= j < lines(list)[k].len() && lines(list)[k][j] == '\n';
            assert(lines(list)[k][j] != '\n');
        }
    }
    lemma_clean_up_to(lines(list), lines(list).len() as int);
    assert(lines(list).take(lines(list).len() as int) =~= lines(list));
}

/// The commands of the first `count` lines are clean.
proof fn lemma_clean_up_to(all: Seq<Seq<char>>, count: int)
    requires
        0 <= count <= all.len(),
        forall|k: int| 0 <= k < all.len() ==> !(#[trigger] all[k]).contains('\n'),
    ensures
        forall|i: int|
            0 <= i < all.take(count).map_values(commands_of()).flatten().len() ==> is_clean(
                #[trigger] all.take(count).map_values(commands_of()).flatten()[i],
            ),
    decreases count,
{
    if count == 0 {
        assert(all.take(0).map_values(commands_of()) =~= Seq::<Seq<Seq<char>>>::empty());
    } else {
        let before = all.take(count - 1).map_values(commands_of());
        let line = all[count - 1];
        lemma_clean_up_to(all, count - 1);
        lemma_line_commands_are_clean(line);
        assert(all.take(count).map_values(commands_of()) =~= before.push(line_commands(line)));
        before.lemma_flatten_push(line_commands(line));
        let now = all.take(count).map_values(commands_of()).flatten();
        assert forall|i: int| 0 <= i < now.len() implies is_clean(#[trigger] now[i]) by {
            if i < before.flatten().len() {
                assert(now[i] == before.flatten()[i]);
            } else {
                assert(now[i] == line_commands(line)[i - before.flatten().len()]);
            }
        }
    }
}

/// The commands of a command list, in the order in which they are to be run.
pub fn split_commands(list: &str) -> (commands: Vec<String>)
    ensures
        views(commands@) == command_sequence(list@),
{
    let chars = to_chars(list);
    let all_lines = split_lines(chars.as_slice());
    let mut commands: Vec<String> = Vec::new();
    let mut i: usize = 0;
    assert(views(commands@) =~= Seq::<Seq<char>>::empty());
    while i < all_lines.len()
        invariant
            i <= all_lines.len(),
            views(all_lines@) == lines(list@),
            views(commands@) == lines(list@).take(i as int).map_values(commands_of()).flatten(),
        decreases all_lines.len() - i,
    {
        let ghost before = views(commands@);
        let ghost line = all_lines@[i as int]@;
        let pieces = split_on(all_lines[i].as_slice(), ',');
        let mut j: usize = 0;
        assert(views(pieces@).take(0).map_values(trimming()) =~= Seq::<Seq<char>>::empty());
        assert(before + Seq::<Seq<char>>::empty() =~= before);
        while j < pieces.len()
            invariant
                j <= pieces.len(),
                views(pieces@) == split(line, ','),
                views(commands@) == before + views(pieces@).take(j as int).map_values(
                    trimming(),
                ).filter(is_command()),
            decreases pieces.len() - j,
        {
            let ghost seen = views(pieces@).take(j as int).map_values(trimming());
            let ghost kept = views(commands@);
            let command = trimmed(pieces[j].as_slice());
            proof {
                assert(views(pieces@).take(j + 1).map_values(trimming()) =~= seen.push(command@));
                seen.lemma_filter_push(command@, is_command());
            }
            if command.len() > 0 {
                let text = to_text(command.as_slice());
                commands.push(text);
                assert(views(commands@) =~= kept.push(command@));
                assert(before + seen.filter(is_command()).push(command@) =~= (before + seen.filter(
                    is_command(),
                )).push(command@));
            }
            j += 1;
        }
        proof {
            assert(views(pieces@).take(pieces@.len() as int) =~= views(pieces@));
            let done = lines(list@).take(i as int).map_values(commands_of());
            assert(views(all_lines@)[i as int] == line);
            assert(lines(list@).take(i + 1).map_values(commands_of()) =~= done.push(
                line_commands(line),
            ));
            done.lemma_flatten_push(line_commands(line));
        }
        i += 1;
    }
    assert(lines(list@).take(all_lines@.len() as int) =~= lines(list@));
    commands
}

/// The shell through which commands are run: a program, and the flag after
/// which it takes the command.
#[derive(Clone, Debug, PartialEq, Eq)]
pub struct Shell {
    pub program: String,
    pub flag: String,
}

/// The program that runs commands on `platform`.
pub open spec fn shell_program(platform: Platform) -> Seq<char> {
    match platform {
        Platform::Windows => "powershell.exe"@,
        Platform::Unix => "sh"@,
    }
}

/// The flag after which the shell of `platform` takes a command.
pub open spec fn shell_flag(platform: Platform) -> Seq<char> {
    match platform {
        Platform::Windows => "-Command"@,
        Platform::Unix => "-c"@,
    }
}

/// The shell that runs commands on `platform`: PowerShell on Windows, the
/// POSIX shell elsewhere.
pub fn shell_for(platform: Platform) -> (shell: Shell)
    ensures
        shell.program@ == shell_program(platform),
        shell.flag@ == shell_flag(platform),
{
    match platform {
        Platform::Windows => Shell {
            program: String::from_str("powershell.exe"),
            flag: String::from_str("-Command"),
        },
        Platform::Unix => Shell { program: String::from_str("sh"), flag: String::from_str("-c") },
    }
}

} // verus!
