//! Terminal behaviour: drawing, scrolling, the scancode line editor, and
//! the command shell.

use terra_os_kernel::allocator::MemoryStats;
use terra_os_kernel::terminal::{scancode_ascii, Color, ColorCode, Terminal};

fn sample_stats() -> MemoryStats {
    MemoryStats {
        total_heap_size: 102400,
        allocated: 1000,
        freed: 400,
        current_allocated: 600,
        max_allocated: 800,
        allocation_count: 5,
        deallocation_count: 2,
        free_memory: 101800,
    }
}

fn bottom_row_text(t: &Terminal) -> String {
    let frame = t.flush();
    let mut s = String::new();
    for col in 0..80 {
        s.push(frame.cell(24, col).ascii_character as char);
    }
    s.trim_end().to_string()
}

#[test]
fn color_code_packs_background_and_foreground() {
    let c = ColorCode::new(Color::Green, Color::Black);
    assert_eq!(c.0, 2);
    let c = ColorCode::new(Color::White, Color::Blue);
    assert_eq!(c.0, 16 + 15);
}

#[test]
fn write_str_draws_on_the_bottom_row() {
    let mut t = Terminal::new();
    t.write_str("hello");
    let frame = t.flush();
    assert_eq!(frame.cell(24, 0).ascii_character, b'h');
    assert_eq!(frame.cell(24, 4).ascii_character, b'o');
    assert_eq!(frame.cell(24, 5).ascii_character, b' ');
}

#[test]
fn newline_scrolls_the_grid_up() {
    let mut t = Terminal::new();
    t.write_str("first\n");
    t.write_str("second");
    let frame = t.flush();
    assert_eq!(frame.cell(23, 0).ascii_character, b'f');
    assert_eq!(frame.cell(24, 0).ascii_character, b's');
}

#[test]
fn a_full_row_wraps_onto_a_fresh_line() {
    let mut t = Terminal::new();
    for _ in 0..80 {
        t.write_byte(b'a');
    }
    t.write_byte(b'b');
    let frame = t.flush();
    assert_eq!(frame.cell(23, 79).ascii_character, b'a');
    assert_eq!(frame.cell(24, 0).ascii_character, b'b');
}

#[test]
fn clear_blanks_every_cell() {
    let mut t = Terminal::new();
    t.write_str("something");
    t.clear();
    let frame = t.flush();
    for row in 0..25 {
        for col in 0..80 {
            assert_eq!(frame.cell(row, col).ascii_character, b' ');
        }
    }
}

#[test]
fn scancode_map_covers_letters_digits_and_shift() {
    assert_eq!(scancode_ascii(0x10, false), b'q');
    assert_eq!(scancode_ascii(0x10, true), b'Q');
    assert_eq!(scancode_ascii(0x02, false), b'1');
    assert_eq!(scancode_ascii(0x02, true), b'!');
    assert_eq!(scancode_ascii(0x39, false), b' ');
    assert_eq!(scancode_ascii(0x00, false), 0);
}

#[test]
fn read_line_collects_a_typed_line() {
    let mut t = Terminal::new();
    // m, k, q, p, enter
    for sc in [50u8, 37, 16, 25, 28] {
        t.push_scancode(sc);
    }
    let line = t.read_line();
    assert_eq!(line.as_deref(), Some("mkqp"));
}

#[test]
fn read_line_passes_over_keys_outside_the_typing_zone() {
    let mut t = Terminal::new();
    // The digit row and the space key sit in the ranges the editor
    // passes over; only the letters register.
    for sc in [2u8, 50, 57, 37, 28] {
        t.push_scancode(sc);
    }
    assert_eq!(t.read_line().as_deref(), Some("mk"));
}

#[test]
fn read_line_returns_nothing_until_enter_arrives() {
    let mut t = Terminal::new();
    t.push_scancode(50);
    assert_eq!(t.read_line(), None);
    t.push_scancode(37);
    t.push_scancode(28);
    assert_eq!(t.read_line().as_deref(), Some("mk"));
}

#[test]
fn read_line_debounces_a_repeated_scancode() {
    let mut t = Terminal::new();
    // The same key twice in a row registers once.
    for sc in [16u8, 16, 28] {
        t.push_scancode(sc);
    }
    assert_eq!(t.read_line().as_deref(), Some("q"));
}

#[test]
fn read_line_applies_shift_while_it_is_held() {
    let mut t = Terminal::new();
    // shift down, q, shift up, w, enter
    for sc in [42u8, 16, 170, 17, 28] {
        t.push_scancode(sc);
    }
    assert_eq!(t.read_line().as_deref(), Some("Qw"));
}

#[test]
fn read_line_backspace_removes_the_last_character() {
    let mut t = Terminal::new();
    // m, k, backspace, enter
    for sc in [50u8, 37, 14, 28] {
        t.push_scancode(sc);
    }
    assert_eq!(t.read_line().as_deref(), Some("m"));
}

#[test]
fn read_line_tab_types_four_spaces() {
    let mut t = Terminal::new();
    for sc in [15u8, 28] {
        t.push_scancode(sc);
    }
    assert_eq!(t.read_line().as_deref(), Some("    "));
}

#[test]
fn echo_command_prints_its_arguments() {
    let mut t = Terminal::new();
    let stats = sample_stats();
    t.process_command("echo hi there", &stats);
    // The echoed text scrolled up one line when the newline was written.
    let frame = t.flush();
    assert_eq!(frame.cell(23, 0).ascii_character, b'h');
    assert_eq!(frame.cell(23, 1).ascii_character, b'i');
    assert_eq!(frame.cell(23, 2).ascii_character, b' ');
    assert_eq!(frame.cell(23, 3).ascii_character, b't');
}

#[test]
fn clear_command_blanks_the_screen() {
    let mut t = Terminal::new();
    let stats = sample_stats();
    t.write_str("leftovers");
    t.process_command("clear", &stats);
    let frame = t.flush();
    for col in 0..80 {
        assert_eq!(frame.cell(24, col).ascii_character, b' ');
    }
}

#[test]
fn empty_command_line_changes_nothing() {
    let mut t = Terminal::new();
    let stats = sample_stats();
    t.write_str("prompt");
    let before = bottom_row_text(&t);
    t.process_command("   ", &stats);
    assert_eq!(bottom_row_text(&t), before);
}

#[test]
fn unknown_command_is_reported() {
    let mut t = Terminal::new();
    let stats = sample_stats();
    t.process_command("frobnicate", &stats);
    let frame = t.flush();
    // "Unknown command: frobnicate" scrolled one row up by its newline.
    let expected = b"Unknown command: frobnicate";
    for (i, &b) in expected.iter().enumerate() {
        assert_eq!(frame.cell(23, i).ascii_character, b);
    }
}

#[test]
fn memory_commands_render_reports() {
    let stats = sample_stats();
    for cmd in ["meminfo", "memstats", "sysinfo", "syshealth", "help", "ls", "ls -l -a"] {
        let mut t = Terminal::new();
        t.process_command(cmd, &stats);
        // Each command leaves a prompt-ready, well-formed screen.
        let _ = t.flush();
    }
}

#[test]
fn format_size_renders_bytes_kib_and_mib() {
    let t = Terminal::new();
    assert_eq!(t.format_size(512), "512B");
    assert_eq!(t.format_size(1024), "1.0K");
    assert_eq!(t.format_size(1536), "1.5K");
    assert_eq!(t.format_size(3 * 1048576 / 2), "1.5M");
}
