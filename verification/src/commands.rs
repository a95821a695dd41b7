//! The shell's command table: one type per command, a common trait for
//! executing them, and name-based lookup.

use vstd::prelude::*;
use crate::terminal::Terminal;
use crate::text::str_eq;

verus! {

/// What every shell command offers: run it, and describe it.
pub trait Command {
    /// Runs the command against the terminal.
    fn execute(&self, terminal: &mut Terminal, args: &[String])
        requires
            old(terminal).wf(),
        ensures
            final(terminal).wf(),
    ;

    /// The name the command is invoked by.
    fn name(&self) -> &'static str;

    /// One line describing the command.
    fn description(&self) -> &'static str;
}

/// Prints the command overview.
pub struct HelpCommand;

impl Command for HelpCommand {
    fn execute(&self, terminal: &mut Terminal, args: &[String]) {
        terminal.write_str("Available commands:\n");
        terminal.write_str("  help   - Display this help message\n");
        terminal.write_str("  clear  - Clear the terminal screen\n");
        terminal.write_str("  echo   - Print a message\n");
        terminal.write_str("  ls     - List files and directories\n");
        terminal.write_str("  cat    - Display the content of a file\n");
    }

    fn name(&self) -> (r: &'static str)
        ensures
            r@ == "help"@,
    {
        "help"
    }

    fn description(&self) -> (r: &'static str)
        ensures
            r@ == "Display help information"@,
    {
        "Display help information"
    }
}

/// Blanks the screen.
pub struct ClearCommand;

impl Command for ClearCommand {
    fn execute(&self, terminal: &mut Terminal, args: &[String])
        ensures
            final(terminal).col() == 0,
            forall|row: int|
                0 <= row < final(terminal).grid().len() ==> #[trigger] final(terminal).grid()[row]
                    =~= crate::terminal::blank_row(),
    {
        terminal.clear();
    }

    fn name(&self) -> (r: &'static str)
        ensures
            r@ == "clear"@,
    {
        "clear"
    }

    fn description(&self) -> (r: &'static str)
        ensures
            r@ == "Clear the terminal screen"@,
    {
        "Clear the terminal screen"
    }
}

/// Prints its arguments separated by spaces.
pub struct EchoCommand;

impl Command for EchoCommand {
    fn execute(&self, terminal: &mut Terminal, args: &[String]) {
        if args.len() == 0 {
            terminal.write_byte(10);
        } else {
            let mut i: usize = 0;
            while i < args.len()
                invariant
                    terminal.wf(),
                    0 <= i <= args@.len(),
                decreases args@.len() - i,
            {
                if i > 0 {
                    terminal.write_byte(32);
                }
                let arg = &args[i];
                terminal.write_str(arg.as_str());
                i = i + 1;
            }
            terminal.write_byte(10);
        }
    }

    fn name(&self) -> (r: &'static str)
        ensures
            r@ == "echo"@,
    {
        "echo"
    }

    fn description(&self) -> (r: &'static str)
        ensures
            r@ == "Print a message"@,
    {
        "Print a message"
    }
}

/// Lists files and directories.
pub struct LsCommand;

impl Command for LsCommand {
    fn execute(&self, terminal: &mut Terminal, args: &[String]) {
        let mut long_format = false;
        let mut show_all = false;
        let mut i: usize = 0;
        while i < args.len()
            invariant
                terminal.wf(),
                0 <= i <= args@.len(),
            decreases args@.len() - i,
        {
            let arg = &args[i];
            if str_eq(arg.as_str(), "-l") {
                long_format = true;
            } else if str_eq(arg.as_str(), "-a") {
                show_all = true;
            }
            i = i + 1;
        }

        let device = crate::fs::MemoryBlockDevice::new();
        let mut fs = crate::fs::SimpleFileSystem::new(device);
        fs.init();

        if long_format && show_all {
            terminal.write_str("Listing all files and directories with details...\n");
        } else if long_format {
            terminal.write_str("Listing files and directories with details...\n");
        } else if show_all {
            terminal.write_str("Listing all files and directories...\n");
        } else {
            terminal.write_str("Listing files and directories...\n");
        }
        terminal.write_str("Directory listing functionality is not yet fully implemented.\n");
    }

    fn name(&self) -> (r: &'static str)
        ensures
            r@ == "ls"@,
    {
        "ls"
    }

    fn description(&self) -> (r: &'static str)
        ensures
            r@ == "List files and directories"@,
    {
        "List files and directories"
    }
}

/// Shows a file's contents.
pub struct CatCommand;

impl Command for CatCommand {
    fn execute(&self, terminal: &mut Terminal, args: &[String]) {
        terminal.write_str("cat command is not yet implemented for the new filesystem.\n");
    }

    fn name(&self) -> (r: &'static str)
        ensures
            r@ == "cat"@,
    {
        "cat"
    }

    fn description(&self) -> (r: &'static str)
        ensures
            r@ == "Display the content of a file"@,
    {
        "Display the content of a file"
    }
}

/// Creates a directory.
pub struct MkCommand;

impl Command for MkCommand {
    fn execute(&self, terminal: &mut Terminal, args: &[String]) {
        if args.len() == 0 {
            terminal.write_str("Usage: mk <directory_name>\n");
            return ;
        }
        let dir_name = &args[0];

        let device = crate::fs::MemoryBlockDevice::new();
        let mut fs = crate::fs::SimpleFileSystem::new(device);
        fs.init();

        terminal.write_str("Creating directory '");
        terminal.write_str(dir_name.as_str());
        terminal.write_str("'...\n");
        terminal.write_str("Directory creation functionality is not yet fully implemented.\n");
    }

    fn name(&self) -> (r: &'static str)
        ensures
            r@ == "mk"@,
    {
        "mk"
    }

    fn description(&self) -> (r: &'static str)
        ensures
            r@ == "Create a new directory"@,
    {
        "Create a new directory"
    }
}

/// Removes files or directories.
pub struct RmCommand;

impl Command for RmCommand {
    fn execute(&self, terminal: &mut Terminal, args: &[String]) {
        if args.len() == 0 {
            terminal.write_str("Usage: rm [-r] [-f] <name>\n");
            return ;
        }
        terminal.write_str("Removing file or directory...\n");
        terminal.write_str("File/directory removal functionality is not yet fully implemented.\n");
    }

    fn name(&self) -> (r: &'static str)
        ensures
            r@ == "rm"@,
    {
        "rm"
    }

    fn description(&self) -> (r: &'static str)
        ensures
            r@ == "Remove files or directories"@,
    {
        "Remove files or directories"
    }
}

/// Changes the current directory.
pub struct CdCommand;

impl Command for CdCommand {
    fn execute(&self, terminal: &mut Terminal, args: &[String]) {
        if args.len() == 0 {
            terminal.write_str("Usage: cd <directory_path>\n");
            return ;
        }
        let dir_path = &args[0];
        terminal.write_str("Changing directory to '");
        terminal.write_str(dir_path.as_str());
        terminal.write_str("'...\n");
        terminal.write_str("Directory change functionality is not yet fully implemented.\n");
    }

    fn name(&self) -> (r: &'static str)
        ensures
            r@ == "cd"@,
    {
        "cd"
    }

    fn description(&self) -> (r: &'static str)
        ensures
            r@ == "Change the current directory"@,
    {
        "Change the current directory"
    }
}

/// Moves files or directories.
pub struct MvCommand;

impl Command for MvCommand {
    fn execute(&self, terminal: &mut Terminal, args: &[String]) {
        if args.len() < 2 {
            terminal.write_str("Usage: mv <source> <destination>\n");
            return ;
        }
        let source = &args[0];
        let destination = &args[1];
        terminal.write_str("Moving '");
        terminal.write_str(source.as_str());
        terminal.write_str("' to '");
        terminal.write_str(destination.as_str());
        terminal.write_str("'...\n");
        terminal.write_str("File/directory move functionality is not yet fully implemented.\n");
    }

    fn name(&self) -> (r: &'static str)
        ensures
            r@ == "mv"@,
    {
        "mv"
    }

    fn description(&self) -> (r: &'static str)
        ensures
            r@ == "Move files or directories"@,
    {
        "Move files or directories"
    }
}

/// Copies files or directories.
pub struct CpCommand;

impl Command for CpCommand {
    fn execute(&self, terminal: &mut Terminal, args: &[String]) {
        if args.len() < 2 {
            terminal.write_str("Usage: cp [-r] <source> <destination>\n");
            return ;
        }
        let mut recursive = false;
        let mut source_index: usize = 0;
        if str_eq(args[0].as_str(), "-r") {
            recursive = true;
            source_index = 1;
        }
        if args.len() < source_index + 2 {
            terminal.write_str("Usage: cp [-r] <source> <destination>\n");
            return ;
        }
        let source = &args[source_index];
        let destination = &args[source_index + 1];
        if recursive {
            terminal.write_str("Recursively copying '");
        } else {
            terminal.write_str("Copying '");
        }
        terminal.write_str(source.as_str());
        terminal.write_str("' to '");
        terminal.write_str(destination.as_str());
        terminal.write_str("'...\n");
        terminal.write_str("File/directory copy functionality is not yet fully implemented.\n");
    }

    fn name(&self) -> (r: &'static str)
        ensures
            r@ == "cp"@,
    {
        "cp"
    }

    fn description(&self) -> (r: &'static str)
        ensures
            r@ == "Copy files or directories"@,
    {
        "Copy files or directories"
    }
}

/// One entry of the command table.  The verifier takes no trait objects,
/// so the table names each command by variant and `run_command` fans out
/// to the command types.
#[derive(Debug, Clone, Copy, PartialEq, Eq, Structural)]
pub enum CommandKind {
    Help,
    Clear,
    Echo,
    Ls,
    Cat,
    Mk,
    Rm,
    Cd,
    Mv,
    Cp,
}

/// Every command, in the order the table presents them.
pub fn get_commands() -> (r: Vec<CommandKind>)
    ensures
        r@ =~= seq![
            CommandKind::Help,
            CommandKind::Clear,
            CommandKind::Echo,
            CommandKind::Ls,
            CommandKind::Cat,
            CommandKind::Mk,
            CommandKind::Rm,
            CommandKind::Cd,
            CommandKind::Mv,
            CommandKind::Cp,
        ],
{
    let mut v: Vec<CommandKind> = Vec::new();
    v.push(CommandKind::Help);
    v.push(CommandKind::Clear);
    v.push(CommandKind::Echo);
    v.push(CommandKind::Ls);
    v.push(CommandKind::Cat);
    v.push(CommandKind::Mk);
    v.push(CommandKind::Rm);
    v.push(CommandKind::Cd);
    v.push(CommandKind::Mv);
    v.push(CommandKind::Cp);
    v
}

/// The entry a name designates, if any.
pub open spec fn spec_find_command(name: Seq<char>) -> Option<CommandKind> {
    if name == "help"@ {
        Some(CommandKind::Help)
    } else if name == "clear"@ {
        Some(CommandKind::Clear)
    } else if name == "echo"@ {
        Some(CommandKind::Echo)
    } else if name == "ls"@ {
        Some(CommandKind::Ls)
    } else if name == "cat"@ {
        Some(CommandKind::Cat)
    } else if name == "mk"@ {
        Some(CommandKind::Mk)
    } else if name == "rm"@ {
        Some(CommandKind::Rm)
    } else if name == "cd"@ {
        Some(CommandKind::Cd)
    } else if name == "mv"@ {
        Some(CommandKind::Mv)
    } else if name == "cp"@ {
        Some(CommandKind::Cp)
    } else {
        None
    }
}

/// Looks a command up by name.
pub fn find_command(name: &str) -> (r: Option<CommandKind>)
    ensures
        r == spec_find_command(name@),
{
    if str_eq(name, "help") {
        Some(CommandKind::Help)
    } else if str_eq(name, "clear") {
        Some(CommandKind::Clear)
    } else if str_eq(name, "echo") {
        Some(CommandKind::Echo)
    } else if str_eq(name, "ls") {
        Some(CommandKind::Ls)
    } else if str_eq(name, "cat") {
        Some(CommandKind::Cat)
    } else if str_eq(name, "mk") {
        Some(CommandKind::Mk)
    } else if str_eq(name, "rm") {
        Some(CommandKind::Rm)
    } else if str_eq(name, "cd") {
        Some(CommandKind::Cd)
    } else if str_eq(name, "mv") {
        Some(CommandKind::Mv)
    } else if str_eq(name, "cp") {
        Some(CommandKind::Cp)
    } else {
        None
    }
}

/// Runs the command an entry designates.
pub fn run_command(kind: CommandKind, terminal: &mut Terminal, args: &[String])
    requires
        old(terminal).wf(),
    ensures
        final(terminal).wf(),
{
    match kind {
        CommandKind::Help => HelpCommand.execute(terminal, args),
        CommandKind::Clear => ClearCommand.execute(terminal, args),
        CommandKind::Echo => EchoCommand.execute(terminal, args),
        CommandKind::Ls => LsCommand.execute(terminal, args),
        CommandKind::Cat => CatCommand.execute(terminal, args),
        CommandKind::Mk => MkCommand.execute(terminal, args),
        CommandKind::Rm => RmCommand.execute(terminal, args),
        CommandKind::Cd => CdCommand.execute(terminal, args),
        CommandKind::Mv => MvCommand.execute(terminal, args),
        CommandKind::Cp => CpCommand.execute(terminal, args),
    }
}

} // verus!
