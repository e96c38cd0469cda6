use vstd::prelude::*;
use crate::input::InputEvent;
use crossterm::QueueableCommand;
use crossterm::event::KeyCode;
use std::io::Write;

verus! {

#[verifier::external_type_specification]
#[verifier::external_body]
pub struct ExEvent(crossterm::event::Event);

#[verifier::external_type_specification]
#[verifier::external_body]
pub struct ExKeyCode(crossterm::event::KeyCode);

/// A terminal event split into the parts this subsystem reads: a key with
/// its control and release flags, a resize, or anything else.
pub enum RawEvent {
    Key(crossterm::event::KeyCode, bool, bool),
    Resize(u16, u16),
    Other,
}

/// Relies on crossterm's terminal::size: the terminal's (columns, rows).
/// The result depends on the terminal, so nothing more is promised.
#[verifier::external_body]
pub fn term_size() -> (r: Result<(u16, u16), ()>)
{
    match crossterm::terminal::size() {
        Ok(s) => Ok(s),
        Err(_) => Err(()),
    }
}

/// Relies on crossterm's Print command queued on the standard output: the
/// characters are appended to the output queue.
#[verifier::external_body]
pub fn queue_text(s: &Vec<char>) -> (r: Result<(), ()>)
{
    let t: String = s.iter().collect();
    match std::io::stdout().queue(crossterm::style::Print(t)) {
        Ok(_) => Ok(()),
        Err(_) => Err(()),
    }
}

/// Relies on crossterm's SetForegroundColor command queued on the standard
/// output: AnsiValue(i) selects palette entry i.
#[verifier::external_body]
pub fn queue_color(i: u8) -> (r: Result<(), ()>)
{
    match std::io::stdout().queue(
        crossterm::style::SetForegroundColor(crossterm::style::Color::AnsiValue(i)),
    ) {
        Ok(_) => Ok(()),
        Err(_) => Err(()),
    }
}

/// Relies on crossterm's ResetColor command queued on the standard output.
#[verifier::external_body]
pub fn queue_reset_color() -> (r: Result<(), ()>)
{
    match std::io::stdout().queue(crossterm::style::ResetColor) {
        Ok(_) => Ok(()),
        Err(_) => Err(()),
    }
}

/// Relies on crossterm's Clear command queued on the standard output:
/// clears the line the terminal cursor is on.
#[verifier::external_body]
pub fn queue_clear_line() -> (r: Result<(), ()>)
{
    match std::io::stdout().queue(
        crossterm::terminal::Clear(crossterm::terminal::ClearType::CurrentLine),
    ) {
        Ok(_) => Ok(()),
        Err(_) => Err(()),
    }
}

/// Relies on std's Write::flush on the standard output.
#[verifier::external_body]
pub fn flush_out() -> (r: Result<(), ()>)
{
    match std::io::stdout().flush() {
        Ok(()) => Ok(()),
        Err(_) => Err(()),
    }
}

/// Relies on crossterm's terminal::enable_raw_mode.
#[verifier::external_body]
pub fn enable_raw() -> (r: Result<(), ()>)
{
    match crossterm::terminal::enable_raw_mode() {
        Ok(()) => Ok(()),
        Err(_) => Err(()),
    }
}

/// Relies on crossterm's terminal::disable_raw_mode.
#[verifier::external_body]
pub fn disable_raw() -> (r: Result<(), ()>)
{
    match crossterm::terminal::disable_raw_mode() {
        Ok(()) => Ok(()),
        Err(_) => Err(()),
    }
}

/// Relies on crossterm's event::read: blocks until the next terminal
/// event arrives.
#[verifier::external_body]
pub fn read_raw() -> (r: Result<crossterm::event::Event, ()>)
{
    match crossterm::event::read() {
        Ok(e) => Ok(e),
        Err(_) => Err(()),
    }
}

/// Relies on crossterm's Event and KeyEvent shapes: splits an event into
/// the key code with its control and release flags, or the new size.
#[verifier::external_body]
pub fn event_shape(ev: crossterm::event::Event) -> (r: RawEvent)
{
    match ev {
        crossterm::event::Event::Key(k) => RawEvent::Key(
            k.code,
            k.modifiers.contains(crossterm::event::KeyModifiers::CONTROL),
            k.kind == crossterm::event::KeyEventKind::Release,
        ),
        crossterm::event::Event::Resize(c, r) => RawEvent::Resize(c, r),
        _ => RawEvent::Other,
    }
}

/// Relies on crossterm's KeyCode: each key code this subsystem acts on,
/// as its input event, modifiers not yet considered.
#[verifier::external_body]
pub fn key_code_event(code: crossterm::event::KeyCode) -> (ev: InputEvent)
{
    match code {
        KeyCode::Char(c) => InputEvent::Insert(c),
        KeyCode::Backspace => InputEvent::Backspace,
        KeyCode::Delete => InputEvent::Delete,
        KeyCode::Left => InputEvent::Left,
        KeyCode::Right => InputEvent::Right,
        KeyCode::Up => InputEvent::Up,
        KeyCode::Down => InputEvent::Down,
        KeyCode::Home => InputEvent::Home,
        KeyCode::End => InputEvent::End,
        KeyCode::Enter => InputEvent::Enter,
        _ => InputEvent::Other,
    }
}

/// Relies on std's FromIterator for String: collects characters, in
/// order, into a string.
#[verifier::external_body]
pub fn chars_to_string(v: &Vec<char>) -> (s: String)
    ensures
        s@ == v@,
{
    v.iter().collect()
}

/// How a key event is interpreted once its modifiers are considered: key
/// releases are ignored, control-c is the interrupt, any other control
/// chord is ignored, and everything else stands as it is.
pub open spec fn interpret_key_spec(base: InputEvent, ctrl: bool, release: bool) -> InputEvent {
    if release {
        InputEvent::Other
    } else if ctrl {
        if base == InputEvent::Insert('c') {
            InputEvent::Interrupt
        } else {
            InputEvent::Other
        }
    } else {
        base
    }
}

/// Applies the modifier rules to a classified key.
pub fn interpret_key(base: InputEvent, ctrl: bool, release: bool) -> (ev: InputEvent)
    ensures
        ev == interpret_key_spec(base, ctrl, release),
{
    if release {
        InputEvent::Other
    } else if ctrl {
        match base {
            InputEvent::Insert(c) => {
                if c == 'c' {
                    InputEvent::Interrupt
                } else {
                    InputEvent::Other
                }
            },
            _ => InputEvent::Other,
        }
    } else {
        base
    }
}

/// Blocks for the next terminal event and turns it into an input event.
pub fn next_event() -> (r: Result<InputEvent, ()>)
{
    match read_raw() {
        Result::Err(()) => Result::Err(()),
        Result::Ok(e) => match event_shape(e) {
            RawEvent::Key(code, ctrl, release) => {
                let base = key_code_event(code);
                Result::Ok(interpret_key(base, ctrl, release))
            },
            RawEvent::Resize(c, r) => Result::Ok(InputEvent::Resize(c, r)),
            RawEvent::Other => Result::Ok(InputEvent::Other),
        },
    }
}

} // verus!
