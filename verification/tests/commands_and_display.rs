//! The command table and the off-screen display frame.

use terra_os_kernel::commands::{
    find_command, get_commands, run_command, CatCommand, CdCommand, ClearCommand, Command,
    CommandKind, CpCommand, EchoCommand, HelpCommand, LsCommand, MkCommand, MvCommand, RmCommand,
};
use terra_os_kernel::terminal::Terminal;
use terra_os_kernel::vga_buffer::{Color, ColorCode, DoubleBuffer};

#[test]
fn the_table_holds_every_command_once() {
    let commands = get_commands();
    assert_eq!(commands.len(), 10);
    assert_eq!(commands[0], CommandKind::Help);
    assert_eq!(commands[9], CommandKind::Cp);
}

#[test]
fn lookup_by_name_finds_each_command() {
    assert_eq!(find_command("help"), Some(CommandKind::Help));
    assert_eq!(find_command("clear"), Some(CommandKind::Clear));
    assert_eq!(find_command("echo"), Some(CommandKind::Echo));
    assert_eq!(find_command("ls"), Some(CommandKind::Ls));
    assert_eq!(find_command("cat"), Some(CommandKind::Cat));
    assert_eq!(find_command("mk"), Some(CommandKind::Mk));
    assert_eq!(find_command("rm"), Some(CommandKind::Rm));
    assert_eq!(find_command("cd"), Some(CommandKind::Cd));
    assert_eq!(find_command("mv"), Some(CommandKind::Mv));
    assert_eq!(find_command("cp"), Some(CommandKind::Cp));
    assert_eq!(find_command("frobnicate"), None);
    assert_eq!(find_command(""), None);
}

#[test]
fn names_and_descriptions_are_stable() {
    assert_eq!(HelpCommand.name(), "help");
    assert_eq!(HelpCommand.description(), "Display help information");
    assert_eq!(ClearCommand.name(), "clear");
    assert_eq!(EchoCommand.name(), "echo");
    assert_eq!(LsCommand.name(), "ls");
    assert_eq!(CatCommand.name(), "cat");
    assert_eq!(MkCommand.name(), "mk");
    assert_eq!(RmCommand.name(), "rm");
    assert_eq!(CdCommand.name(), "cd");
    assert_eq!(MvCommand.name(), "mv");
    assert_eq!(MvCommand.description(), "Move files or directories");
    assert_eq!(CpCommand.name(), "cp");
}

#[test]
fn echo_execute_prints_its_arguments() {
    let mut t = Terminal::new();
    let args = vec!["alpha".to_string(), "beta".to_string()];
    EchoCommand.execute(&mut t, &args);
    let frame = t.flush();
    let expected = b"alpha beta";
    for (i, &b) in expected.iter().enumerate() {
        assert_eq!(frame.cell(23, i).ascii_character, b);
    }
}

#[test]
fn clear_execute_blanks_the_screen() {
    let mut t = Terminal::new();
    t.write_str("junk");
    run_command(CommandKind::Clear, &mut t, &[]);
    let frame = t.flush();
    for col in 0..80 {
        assert_eq!(frame.cell(24, col).ascii_character, b' ');
    }
}

#[test]
fn every_command_runs_against_a_terminal() {
    let args = vec!["-r".to_string(), "a".to_string(), "b".to_string()];
    for kind in get_commands() {
        let mut t = Terminal::new();
        run_command(kind, &mut t, &args);
        let _ = t.flush();
    }
}

#[test]
fn frame_cells_are_drawn_and_scrolled() {
    let mut db = DoubleBuffer::new();
    assert_eq!(db.cell(0, 0).ascii_character, b' ');

    let code = ColorCode::new(Color::Yellow, Color::Blue);
    db.write_char(1, 2, b'X', code);
    assert_eq!(db.cell(1, 2).ascii_character, b'X');
    assert_eq!(db.cell(1, 2).color_code, code);

    // Positions off the grid are ignored.
    db.write_char(25, 0, b'Y', code);
    db.write_char(0, 80, b'Y', code);

    db.scroll_up();
    assert_eq!(db.cell(0, 2).ascii_character, b'X');
    for col in 0..80 {
        assert_eq!(db.cell(24, col).ascii_character, b' ');
    }

    db.clear();
    assert_eq!(db.cell(0, 2).ascii_character, b' ');
}
