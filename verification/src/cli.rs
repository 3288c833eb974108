//! The command line: which operation the arguments ask for, and the script
//! with which the installer updates itself.

use vstd::prelude::*;
use vstd::string::StringExecFns;
use crate::platform::Platform;
use crate::text::{same_chars, to_chars, views};

verus! {

/// What the command line asks for.
#[derive(Clone, Debug, PartialEq, Eq)]
pub enum Command {
    /// Install the package.
    Install { package: String },
    /// Uninstall the package.
    Uninstall { package: String },
    /// Install every recorded package again.
    Upgrade,
    /// Update the installer itself.
    Update,
    /// Show the commands.
    Help,
    /// Show the version.
    Version,
    /// Show how the installer is called; nothing else is done, and that is no
    /// failure.
    Usage,
}

/// A command, as plain texts.
pub ghost enum CommandView {
    Install { package: Seq<char> },
    Uninstall { package: Seq<char> },
    Upgrade,
    Update,
    Help,
    Version,
    Usage,
}

impl View for Command {
    type V = CommandView;

    open spec fn view(&self) -> CommandView {
        match *self {
            Command::Install { package } => CommandView::Install { package: package@ },
            Command::Uninstall { package } => CommandView::Uninstall { package: package@ },
            Command::Upgrade => CommandView::Upgrade,
            Command::Update => CommandView::Update,
            Command::Help => CommandView::Help,
            Command::Version => CommandView::Version,
            Command::Usage => CommandView::Usage,
        }
    }
}

/// The command that the arguments ask for. The first argument is the name
/// under which the program was called, the second the command word, the third
/// the package where the command takes one. A missing or unknown command word
/// and a missing package ask for the usage.
pub open spec fn command_of(args: Seq<Seq<char>>) -> CommandView {
    if args.len() < 2 {
        CommandView::Usage
    } else if args[1] == "install"@ {
        if args.len() < 3 {
            CommandView::Usage
        } else {
            CommandView::Install { package: args[2] }
        }
    } else if args[1] == "uninstall"@ {
        if args.len() < 3 {
            CommandView::Usage
        } else {
            CommandView::Uninstall { package: args[2] }
        }
    } else if args[1] == "upgrade"@ {
        CommandView::Upgrade
    } else if args[1] == "update"@ {
        CommandView::Update
    } else if args[1] == "help"@ {
        CommandView::Help
    } else if args[1] == "version"@ {
        CommandView::Version
    } else {
        CommandView::Usage
    }
}

/// Whether `word` reads `literal`.
fn reads(word: &Vec<char>, literal: &str) -> (same: bool)
    ensures
        same == (word@ == literal@),
{
    same_chars(word.as_slice(), to_chars(literal).as_slice())
}

/// Reads the command out of the arguments the program was called with.
pub fn parse_arguments(args: &Vec<String>) -> (command: Command)
    ensures
        command@ == command_of(views(args@)),
{
    if args.len() < 2 {
        return Command::Usage;
    }
    let word = to_chars(args[1].as_str());
    assert(views(args@)[1] == word@);
    if reads(&word, "install") {
        if args.len() < 3 {
            Command::Usage
        } else {
            assert(views(args@)[2] == args@[2]@);
            Command::Install { package: args[2].clone() }
        }
    } else if reads(&word, "uninstall") {
        if args.len() < 3 {
            Command::Usage
        } else {
            assert(views(args@)[2] == args@[2]@);
            Command::Uninstall { package: args[2].clone() }
        }
    } else if reads(&word, "upgrade") {
        Command::Upgrade
    } else if reads(&word, "update") {
        Command::Update
    } else if reads(&word, "help") {
        Command::Help
    } else if reads(&word, "version") {
        Command::Version
    } else {
        Command::Usage
    }
}

/// The command that fetches the installer's own install script and runs it.
pub open spec fn update_script_of(platform: Platform) -> Seq<char> {
    match platform {
        Platform::Windows =>
            "powershell -NoProfile -ExecutionPolicy Bypass -Command \"[System.Text.Encoding]::UTF8.GetString((iwr -UseBasicParsing 'https://gleepkg.deno.dev/.tpi/install.ps1').Content) | iex\""@,
        Platform::Unix => "curl -fsSL https://gleepkg.deno.dev/.tpi/install.sh | sh"@,
    }
}

/// The command with which the installer updates itself on `platform`; it is
/// run through the shell of that platform.
pub fn update_script(platform: Platform) -> (script: String)
    ensures
        script@ == update_script_of(platform),
{
    match platform {
        Platform::Windows => String::from_str(
            "powershell -NoProfile -ExecutionPolicy Bypass -Command \"[System.Text.Encoding]::UTF8.GetString((iwr -UseBasicParsing 'https://gleepkg.deno.dev/.tpi/install.ps1').Content) | iex\"",
        ),
        Platform::Unix => String::from_str(
            "curl -fsSL https://gleepkg.deno.dev/.tpi/install.sh | sh",
        ),
    }
}

} // verus!
