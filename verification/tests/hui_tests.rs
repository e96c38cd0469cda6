use hui::color::nearest_color;
use hui::errors::UiError;
use hui::escape::escape_chars;
use hui::input::{step, EditBuffer, InputEvent, StepOut};
use hui::render::{dec_chars, pad_left};
use hui::syntax::ext_chars;
use hui::ui::{run_events, split_lines, HighlightingUI, Outcome};

fn chars(s: &str) -> Vec<char> {
    s.chars().collect()
}

fn to_string(v: &[char]) -> String {
    v.iter().collect()
}

fn empty_buffer() -> EditBuffer {
    EditBuffer::new_empty()
}

fn is_ctrl_byte(c: char) -> bool {
    (c as u32) < 32 || c as u32 == 127
}

// Grammar resolution is total: a known extension finds its grammar and an
// unknown or missing extension falls back to plain text.
#[test]
fn resolve_known_extension() {
    let ui = HighlightingUI::new();
    let s = ui.resolve("src/main.rs");
    assert_eq!(s.name, "Rust");
}

#[test]
fn resolve_unknown_extension_is_plain_text() {
    let ui = HighlightingUI::new();
    let s = ui.resolve("strange.zzzzqq");
    assert_eq!(s.name, "Plain Text");
}

#[test]
fn resolve_no_extension_is_plain_text() {
    let ui = HighlightingUI::new();
    let s = ui.resolve("Makefile_like_name");
    assert_eq!(s.name, "Plain Text");
}

#[test]
fn resolve_whole_file_name() {
    let ui = HighlightingUI::new();
    let s = ui.resolve("project/Makefile");
    assert_eq!(s.name, "Makefile");
}

#[test]
fn insert_of_control_char_is_ignored() {
    let history: Vec<String> = Vec::new();
    let mut buf = EditBuffer {
        lines: vec![chars("ab")],
        line: 0,
        col: 1,
    };
    let mut recall = 0;
    let out = step(&mut buf, &mut recall, &history, true, '.', InputEvent::Insert('\n'));
    assert_eq!(out, StepOut::Unchanged);
    assert_eq!(to_string(&buf.lines[0]), "ab");
    let out = step(&mut buf, &mut recall, &history, true, '.', InputEvent::Insert('\u{1}'));
    assert_eq!(out, StepOut::Unchanged);
    assert_eq!(to_string(&buf.lines[0]), "ab");
}

#[test]
fn extension_extraction() {
    assert_eq!(to_string(&ext_chars(&chars("a.tar.gz"))), "gz");
    assert_eq!(to_string(&ext_chars(&chars("noext"))), "");
    assert_eq!(to_string(&ext_chars(&chars("trailing."))), "");
    assert_eq!(to_string(&ext_chars(&chars(".hidden"))), "");
}

// Literal-mode escaping never leaves a raw control character in the text.
#[test]
fn escape_removes_all_control_chars() {
    let line = chars("a\tb\u{1}\u{8}\u{b}\u{1f}\u{7f}end");
    let escaped = escape_chars(&line);
    for &c in escaped.iter() {
        assert!(!is_ctrl_byte(c));
    }
    assert_eq!(to_string(&escaped), "a^Ib^A^H^K^_^?end");
}

#[test]
fn escape_keeps_printable_text() {
    let line = chars("plain text 123");
    let escaped = escape_chars(&line);
    assert_eq!(to_string(&escaped), "plain text 123");
}

// Insert and delete operations keep the cursor column within the line.
#[test]
fn cursor_stays_in_bounds_under_edits() {
    let history: Vec<String> = Vec::new();
    let mut buf = empty_buffer();
    let mut recall = history.len();
    let events = vec![
        InputEvent::Insert('a'),
        InputEvent::Insert('b'),
        InputEvent::Backspace,
        InputEvent::Delete,
        InputEvent::Backspace,
        InputEvent::Backspace,
        InputEvent::Insert('x'),
        InputEvent::Enter,
        InputEvent::Insert('y'),
        InputEvent::Backspace,
        InputEvent::Backspace,
        InputEvent::Delete,
        InputEvent::Left,
        InputEvent::Right,
        InputEvent::End,
        InputEvent::Home,
    ];
    for ev in events {
        step(&mut buf, &mut recall, &history, false, '.', ev);
        assert!(buf.line < buf.lines.len());
        assert!(buf.col <= buf.lines[buf.line].len());
    }
}

#[test]
fn backspace_merges_lines() {
    let history: Vec<String> = Vec::new();
    let mut buf = EditBuffer {
        lines: vec![chars("ab"), chars("cd")],
        line: 1,
        col: 0,
    };
    let mut recall = 0;
    let out = step(&mut buf, &mut recall, &history, false, '.', InputEvent::Backspace);
    assert_eq!(out, StepOut::Reshaped);
    assert_eq!(buf.lines.len(), 1);
    assert_eq!(to_string(&buf.lines[0]), "abcd");
    assert_eq!(buf.line, 0);
    assert_eq!(buf.col, 2);
}

#[test]
fn delete_at_line_end_merges_next_line() {
    let history: Vec<String> = Vec::new();
    let mut buf = EditBuffer {
        lines: vec![chars("ab"), chars("cd")],
        line: 0,
        col: 2,
    };
    let mut recall = 0;
    let out = step(&mut buf, &mut recall, &history, false, '.', InputEvent::Delete);
    assert_eq!(out, StepOut::Reshaped);
    assert_eq!(buf.lines.len(), 1);
    assert_eq!(to_string(&buf.lines[0]), "abcd");
}

#[test]
fn enter_splits_line_at_cursor() {
    let history: Vec<String> = Vec::new();
    let mut buf = EditBuffer {
        lines: vec![chars("abcd")],
        line: 0,
        col: 2,
    };
    let mut recall = 0;
    let out = step(&mut buf, &mut recall, &history, false, '.', InputEvent::Enter);
    assert_eq!(out, StepOut::Reshaped);
    assert_eq!(buf.lines.len(), 2);
    assert_eq!(to_string(&buf.lines[0]), "ab");
    assert_eq!(to_string(&buf.lines[1]), "cd");
    assert_eq!(buf.line, 1);
    assert_eq!(buf.col, 0);
}

#[test]
fn navigation_clamps_at_buffer_edges() {
    let history: Vec<String> = Vec::new();
    let mut buf = empty_buffer();
    let mut recall = 0;
    assert_eq!(
        step(&mut buf, &mut recall, &history, false, '.', InputEvent::Left),
        StepOut::Unchanged
    );
    assert_eq!(
        step(&mut buf, &mut recall, &history, false, '.', InputEvent::Right),
        StepOut::Unchanged
    );
    assert_eq!(
        step(&mut buf, &mut recall, &history, false, '.', InputEvent::Up),
        StepOut::Unchanged
    );
    assert_eq!(
        step(&mut buf, &mut recall, &history, false, '.', InputEvent::Down),
        StepOut::Unchanged
    );
}

// Submitting a command appends exactly that command, duplicates included.
#[test]
fn history_appends_in_order_with_duplicates() {
    let mut ui = HighlightingUI::new();
    assert_eq!(ui.command_history.len(), 0);
    ui.record_command("1,2p");
    ui.record_command("w out.txt");
    ui.record_command("w out.txt");
    assert_eq!(
        ui.command_history,
        vec![
            "1,2p".to_string(),
            "w out.txt".to_string(),
            "w out.txt".to_string()
        ]
    );
}

// History recall reads entries without changing them and keeps the recall
// index inside [0, history length].
#[test]
fn recall_walks_history_read_only() {
    let history: Vec<String> = vec!["first".to_string(), "second".to_string()];
    let mut buf = empty_buffer();
    let mut recall = history.len();
    let out = step(&mut buf, &mut recall, &history, true, '.', InputEvent::Up);
    assert_eq!(out, StepOut::Edited);
    assert_eq!(recall, 1);
    assert_eq!(to_string(&buf.lines[0]), "second");
    step(&mut buf, &mut recall, &history, true, '.', InputEvent::Up);
    assert_eq!(recall, 0);
    assert_eq!(to_string(&buf.lines[0]), "first");
    // At the oldest entry a further recall changes nothing.
    let out = step(&mut buf, &mut recall, &history, true, '.', InputEvent::Up);
    assert_eq!(out, StepOut::Unchanged);
    assert_eq!(recall, 0);
    // Walking forward past the newest entry clears the line and stops.
    step(&mut buf, &mut recall, &history, true, '.', InputEvent::Down);
    step(&mut buf, &mut recall, &history, true, '.', InputEvent::Down);
    assert_eq!(recall, 2);
    assert_eq!(to_string(&buf.lines[0]), "");
    let out = step(&mut buf, &mut recall, &history, true, '.', InputEvent::Down);
    assert_eq!(out, StepOut::Unchanged);
    assert_eq!(recall, 2);
    assert_eq!(history, vec!["first".to_string(), "second".to_string()]);
}

#[test]
fn typed_content_blocks_recall() {
    let history: Vec<String> = vec!["h".to_string()];
    let mut buf = EditBuffer {
        lines: vec![chars("x")],
        line: 0,
        col: 1,
    };
    let mut recall = history.len();
    let out = step(&mut buf, &mut recall, &history, true, '.', InputEvent::Up);
    assert_eq!(out, StepOut::Unchanged);
    assert_eq!(to_string(&buf.lines[0]), "x");
    assert_eq!(recall, 1);
}

#[test]
fn recalled_entry_submits_unchanged() {
    let history: Vec<String> = vec!["prev".to_string()];
    let initial: Vec<String> = Vec::new();
    let events = vec![InputEvent::Up, InputEvent::Enter];
    match run_events(&history, &initial, None, &events) {
        Outcome::Submitted(v) => assert_eq!(v, vec!["prev".to_string()]),
        _ => panic!("expected submission"),
    }
}

// Rendering a selection numbers each line and escapes nothing outside
// literal mode.
#[test]
fn selection_renders_numbered_lines() {
    let ui = HighlightingUI::new();
    let lines = vec!["fn main() {".to_string(), "}".to_string()];
    let segss = ui
        .render_selection(&lines, 1, 2, true, false, "main.rs")
        .expect("rendering cannot fail without terminal writes");
    assert_eq!(segss.len(), 2);
    let first: String = segss[0].iter().flat_map(|s| s.text.iter()).collect();
    let second: String = segss[1].iter().flat_map(|s| s.text.iter()).collect();
    assert_eq!(first, "1|fn main() {");
    assert_eq!(second, "2|}");
    // Syntax coloring assigned a palette color to the content characters.
    assert!(segss[0].iter().any(|s| s.color.is_some()));
}

#[test]
fn selection_renders_literal_escapes() {
    let ui = HighlightingUI::new();
    let lines = vec!["a\tb".to_string()];
    let segss = ui
        .render_selection(&lines, 1, 1, false, true, "note.txt")
        .expect("rendering cannot fail without terminal writes");
    let text: String = segss[0].iter().flat_map(|s| s.text.iter()).collect();
    assert_eq!(text, "a^Ib");
    for seg in &segss[0] {
        for &c in seg.text.iter() {
            assert!(!is_ctrl_byte(c));
        }
    }
}

#[test]
fn print_selection_rejects_invalid_ranges() {
    let mut ui = HighlightingUI::new();
    let lines = vec!["one".to_string(), "two".to_string()];
    assert_eq!(
        ui.print_selection(&lines, (0, 1), true, false, "a.txt"),
        Err(UiError::InvalidSelection)
    );
    assert_eq!(
        ui.print_selection(&lines, (2, 1), true, false, "a.txt"),
        Err(UiError::InvalidSelection)
    );
    assert_eq!(
        ui.print_selection(&lines, (1, 3), true, false, "a.txt"),
        Err(UiError::InvalidSelection)
    );
    assert_eq!(ui.print_selection(&lines, (1, 2), true, false, "a.txt"), Ok(()));
}

// Multi-line input ends at the terminator line, which is not returned.
#[test]
fn multi_line_input_until_terminator() {
    let history: Vec<String> = Vec::new();
    let initial = vec!["a".to_string(), "b".to_string()];
    let events = vec![
        InputEvent::Insert('c'),
        InputEvent::Enter,
        InputEvent::Insert('.'),
        InputEvent::Enter,
    ];
    match run_events(&history, &initial, Some('.'), &events) {
        Outcome::Submitted(v) => {
            assert_eq!(v, vec!["a".to_string(), "b".to_string(), "c".to_string()])
        }
        _ => panic!("expected submission"),
    }
}

#[test]
fn single_line_input_submits_on_enter() {
    let history: Vec<String> = Vec::new();
    let initial: Vec<String> = Vec::new();
    let events = vec![
        InputEvent::Insert('2'),
        InputEvent::Insert('p'),
        InputEvent::Enter,
    ];
    match run_events(&history, &initial, None, &events) {
        Outcome::Submitted(v) => assert_eq!(v, vec!["2p".to_string()]),
        _ => panic!("expected submission"),
    }
}

// An interrupt cancels the input; nothing is submitted and history keeps
// its length.
#[test]
fn interrupt_cancels_input() {
    let history: Vec<String> = vec!["kept".to_string()];
    let initial: Vec<String> = Vec::new();
    let events = vec![InputEvent::Insert('x'), InputEvent::Interrupt];
    match run_events(&history, &initial, None, &events) {
        Outcome::Cancelled => {}
        _ => panic!("expected cancellation"),
    }
    assert_eq!(history, vec!["kept".to_string()]);
}

#[test]
fn resize_keeps_buffer_unchanged() {
    let history: Vec<String> = Vec::new();
    let mut buf = EditBuffer {
        lines: vec![chars("keep")],
        line: 0,
        col: 2,
    };
    let mut recall = 0;
    let out = step(&mut buf, &mut recall, &history, false, '.', InputEvent::Resize(120, 40));
    assert_eq!(out, StepOut::Reshaped);
    assert_eq!(to_string(&buf.lines[0]), "keep");
    assert_eq!(buf.col, 2);
}

// Color quantization picks the nearest palette entry, lowest index on ties.
#[test]
fn nearest_color_exact_palette_hits() {
    assert_eq!(nearest_color(0, 0, 0), 0);
    assert_eq!(nearest_color(170, 0, 0), 1);
    assert_eq!(nearest_color(0, 170, 0), 2);
    assert_eq!(nearest_color(255, 255, 255), 15);
    assert_eq!(nearest_color(85, 85, 85), 8);
}

#[test]
fn nearest_color_quantizes_between_entries() {
    // Nearer to bright blue than anything else.
    assert_eq!(nearest_color(100, 100, 250), 12);
    // A dark gray quantizes to black, not bright black.
    assert_eq!(nearest_color(40, 40, 40), 0);
}

#[test]
fn decimal_and_padding() {
    assert_eq!(to_string(&dec_chars(0)), "0");
    assert_eq!(to_string(&dec_chars(9)), "9");
    assert_eq!(to_string(&dec_chars(1204)), "1204");
    assert_eq!(to_string(&pad_left(chars("7"), 3)), "  7");
    assert_eq!(to_string(&pad_left(chars("1204"), 3)), "1204");
}

#[test]
fn message_splitting() {
    let got = split_lines(&chars("a\nb\r\nc"));
    let got: Vec<String> = got.iter().map(|l| to_string(l)).collect();
    assert_eq!(got, vec!["a".to_string(), "b".to_string(), "c".to_string()]);
    let trailing = split_lines(&chars("x\n"));
    let trailing: Vec<String> = trailing.iter().map(|l| to_string(l)).collect();
    assert_eq!(trailing, vec!["x".to_string()]);
    assert_eq!(split_lines(&chars("")).len(), 0);
}

#[test]
fn print_message_succeeds_and_keeps_state() {
    let mut ui = HighlightingUI::new();
    ui.record_command("before".to_string().as_str());
    assert_eq!(ui.print_message("hello\nworld"), Ok(()));
    assert_eq!(ui.command_history, vec!["before".to_string()]);
}

#[test]
fn error_reasons_are_fixed() {
    assert_eq!(UiError::TerminalWrite.reason(), "terminal write failed");
    assert_eq!(UiError::TerminalRead.reason(), "terminal read failed");
    assert_eq!(UiError::Interrupted.reason(), "interrupted");
    assert_eq!(UiError::InvalidSelection.reason(), "selection not in buffer");
}
