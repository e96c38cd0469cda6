use vstd::prelude::*;

verus! {

/// One abstract input event, as the interactive loop sees it after the
/// raw terminal event has been classified.
#[derive(Clone, Copy, Debug, PartialEq, Eq, Structural)]
pub enum InputEvent {
    /// A printable character was typed.
    Insert(char),
    Backspace,
    Delete,
    Left,
    Right,
    Up,
    Down,
    Home,
    End,
    Enter,
    /// The designated cancel key.
    Interrupt,
    /// The terminal was resized to (columns, rows).
    Resize(u16, u16),
    /// Any event this subsystem ignores.
    Other,
}

/// What one transition of the input state machine did, so the caller
/// knows how much to re-render.
#[derive(Clone, Copy, Debug, PartialEq, Eq, Structural)]
pub enum StepOut {
    /// The buffer and cursor are unchanged (clamped movement, ignored event).
    Unchanged,
    /// The current line or the cursor changed; re-render that line.
    Edited,
    /// Lines were added, removed or merged; a full redraw is needed.
    Reshaped,
    /// The input is finished; the caller extracts the submitted lines.
    Submit,
    /// The user cancelled the input.
    Cancel,
}

/// The multi-line edit buffer of the interactive input loop: an ordered
/// sequence of lines of characters and a cursor position.
pub struct EditBuffer {
    pub lines: Vec<Vec<char>>,
    /// Index of the line the cursor is on.
    pub line: usize,
    /// Character offset of the cursor within that line.
    pub col: usize,
}

/// A sequence of character-vector lines as a sequence of character
/// sequences.
pub open spec fn linesv_of(s: Seq<Vec<char>>) -> Seq<Seq<char>> {
    s.map_values(|l: Vec<char>| l@)
}

/// A sequence of strings as sequences of characters.
pub open spec fn stringsv(s: Seq<String>) -> Seq<Seq<char>> {
    s.map_values(|x: String| x@)
}

/// Mapping strings to their views commutes with appending one.
pub proof fn lemma_stringsv_push(s: Seq<String>, x: String)
    ensures
        stringsv(s.push(x)) =~= stringsv(s).push(x@),
{
    assert forall|j: int| 0 <= j < s.len() + 1 implies stringsv(s.push(x))[j] == stringsv(
        s,
    ).push(x@)[j] by {
        if j < s.len() {
            assert(s.push(x)[j] == s[j]);
        } else {
            assert(s.push(x)[j] == x);
        }
    }
}

/// Mapping lines to their views commutes with appending a line.
pub proof fn lemma_linesv_push(s: Seq<Vec<char>>, v: Vec<char>)
    ensures
        linesv_of(s.push(v)) =~= linesv_of(s).push(v@),
{
    assert forall|j: int| 0 <= j < s.len() + 1 implies linesv_of(s.push(v))[j] == linesv_of(
        s,
    ).push(v@)[j] by {
        if j < s.len() {
            assert(s.push(v)[j] == s[j]);
        } else {
            assert(s.push(v)[j] == v);
        }
    }
}

/// Mapping lines to their views commutes with inserting a line.
pub proof fn lemma_linesv_insert(s: Seq<Vec<char>>, i: int, v: Vec<char>)
    requires
        0 <= i <= s.len(),
    ensures
        linesv_of(s.insert(i, v)) =~= linesv_of(s).insert(i, v@),
{
    assert forall|j: int| 0 <= j < s.len() + 1 implies linesv_of(s.insert(i, v))[j] == linesv_of(
        s,
    ).insert(i, v@)[j] by {
        if j < i {
            assert(s.insert(i, v)[j] == s[j]);
        } else if j == i {
            assert(s.insert(i, v)[j] == v);
        } else {
            assert(s.insert(i, v)[j] == s[j - 1]);
        }
    }
}

impl EditBuffer {
    /// The lines as mathematical sequences of characters.
    pub open spec fn linesv(self) -> Seq<Seq<char>> {
        linesv_of(self.lines@)
    }

    /// The line the cursor is on.
    pub open spec fn cur(self) -> Seq<char> {
        self.linesv()[self.line as int]
    }

    /// Well-formedness: there is at least one line, the cursor line exists,
    /// and the cursor column is within [0, length of its line].
    pub open spec fn wf(self) -> bool {
        &&& self.lines@.len() >= 1
        &&& (self.line as int) < self.lines@.len()
        &&& self.col as int <= self.cur().len()
    }

    /// The lines with the cursor line replaced.
    pub open spec fn with_cur(self, l: Seq<char>) -> Seq<Seq<char>> {
        self.linesv().update(self.line as int, l)
    }

    /// An empty buffer: one empty line with the cursor on it.
    pub fn new_empty() -> (b: EditBuffer)
        ensures
            b.wf(),
            b.linesv() =~= seq![Seq::<char>::empty()],
            b.line == 0,
            b.col == 0,
    {
        let mut lines: Vec<Vec<char>> = Vec::new();
        lines.push(Vec::new());
        EditBuffer { lines, line: 0, col: 0 }
    }
}

/// Copies a line of characters.
fn copy_chars(v: &Vec<char>) -> (r: Vec<char>)
    ensures
        r@ == v@,
{
    let mut r: Vec<char> = Vec::new();
    let mut i: usize = 0;
    while i < v.len()
        invariant
            i <= v.len(),
            r@ == v@.subrange(0, i as int),
        decreases v.len() - i,
    {
        r.push(v[i]);
        proof {
            assert(r@ =~= v@.subrange(0, i + 1 as int));
        }
        i = i + 1;
    }
    proof {
        assert(v@.subrange(0, v@.len() as int) =~= v@);
    }
    r
}

/// Replaces the line the cursor is on.
fn set_cur(buf: &mut EditBuffer, l: Vec<char>)
    requires
        old(buf).wf(),
    ensures
        final(buf).linesv() == old(buf).with_cur(l@),
        final(buf).line == old(buf).line,
        final(buf).col == old(buf).col,
{
    let i = buf.line;
    buf.lines.remove(i);
    buf.lines.insert(i, l);
    proof {
        assert(final(buf).linesv() =~= old(buf).with_cur(l@));
    }
}

/// What Enter submits: in single-line mode the one line the cursor is on;
/// in multi-line mode every line before the terminator line the cursor is
/// on.
pub open spec fn submitted_of(lines: Seq<Seq<char>>, line: int, single: bool) -> Seq<Seq<char>> {
    if single {
        seq![lines[line]]
    } else {
        lines.take(line)
    }
}

/// `submitted_of` read off an edit buffer.
pub open spec fn submitted_spec(buf: EditBuffer, single: bool) -> Seq<Seq<char>> {
    submitted_of(buf.linesv(), buf.line as int, single)
}

/// Extracts the submitted lines from a buffer in the `Submit` state.
pub fn submitted_lines(buf: &EditBuffer, single: bool) -> (r: Vec<Vec<char>>)
    requires
        buf.wf(),
    ensures
        linesv_of(r@) =~= submitted_spec(*buf, single),
{
    let mut r: Vec<Vec<char>> = Vec::new();
    if single {
        r.push(copy_chars(&buf.lines[buf.line]));
    } else {
        let mut i: usize = 0;
        while i < buf.line
            invariant
                buf.wf(),
                i <= buf.line,
                linesv_of(r@) =~= buf.linesv().take(i as int),
            decreases buf.line - i,
        {
            let c = copy_chars(&buf.lines[i]);
            proof {
                assert(c@ == buf.linesv()[i as int]);
            }
            let ghost oldr = r@;
            r.push(c);
            proof {
                assert(linesv_of(oldr) == buf.linesv().take(i as int));
                assert(linesv_of(oldr).len() == i);
                assert(oldr.len() == i);
                assert forall|j: int| 0 <= j < r@.len() implies linesv_of(r@)[j]
                    == buf.linesv().take(i + 1 as int)[j] by {
                    if j < i {
                        assert(r@[j] == oldr[j]);
                        assert(linesv_of(oldr)[j] == buf.linesv().take(i as int)[j]);
                    } else {
                        assert(r@[j]@ == buf.linesv()[i as int]);
                    }
                }
                assert(linesv_of(r@) =~= buf.linesv().take(i + 1 as int));
            }
            i = i + 1;
        }
    }
    r
}

/// Whether the cursor line consists of exactly the terminator character.
pub open spec fn at_terminator(buf: EditBuffer, t: char) -> bool {
    buf.cur() =~= seq![t]
}


/// One transition of the input state machine as a mathematical function:
/// from the lines, cursor position and recall index to their next values
/// and the step's outcome. `step` is proved to follow this function
/// exactly, and `run_spec` folds it over an event sequence.
pub open spec fn step_spec(
    lines: Seq<Seq<char>>,
    line: int,
    col: int,
    recall: int,
    hist: Seq<Seq<char>>,
    single: bool,
    term: char,
    ev: InputEvent,
) -> (Seq<Seq<char>>, int, int, int, StepOut) {
    match ev {
        InputEvent::Insert(ch) => if crate::escape::is_ctrl(ch) {
            (lines, line, col, recall, StepOut::Unchanged)
        } else {
            (
                lines.update(line, lines[line].insert(col, ch)),
                line,
                col + 1,
                recall,
                StepOut::Edited,
            )
        },
        InputEvent::Backspace => if col > 0 {
            (lines.update(line, lines[line].remove(col - 1)), line, col - 1, recall, StepOut::Edited)
        } else if line > 0 {
            (
                lines.update(line - 1, lines[line - 1] + lines[line]).remove(line),
                line - 1,
                lines[line - 1].len() as int,
                recall,
                StepOut::Reshaped,
            )
        } else {
            (lines, line, col, recall, StepOut::Unchanged)
        },
        InputEvent::Delete => if col < lines[line].len() {
            (lines.update(line, lines[line].remove(col)), line, col, recall, StepOut::Edited)
        } else if line + 1 < lines.len() {
            (
                lines.update(line, lines[line] + lines[line + 1]).remove(line + 1),
                line,
                col,
                recall,
                StepOut::Reshaped,
            )
        } else {
            (lines, line, col, recall, StepOut::Unchanged)
        },
        InputEvent::Left => if col > 0 {
            (lines, line, col - 1, recall, StepOut::Edited)
        } else if line > 0 {
            (lines, line - 1, lines[line - 1].len() as int, recall, StepOut::Edited)
        } else {
            (lines, line, col, recall, StepOut::Unchanged)
        },
        InputEvent::Right => if col < lines[line].len() {
            (lines, line, col + 1, recall, StepOut::Edited)
        } else if line + 1 < lines.len() {
            (lines, line + 1, 0, recall, StepOut::Edited)
        } else {
            (lines, line, col, recall, StepOut::Unchanged)
        },
        InputEvent::Up => if single {
            if recall > 0 && (lines[line].len() == 0 || recall < hist.len()) {
                (
                    lines.update(line, hist[recall - 1]),
                    line,
                    hist[recall - 1].len() as int,
                    recall - 1,
                    StepOut::Edited,
                )
            } else {
                (lines, line, col, recall, StepOut::Unchanged)
            }
        } else {
            if line > 0 {
                (
                    lines,
                    line - 1,
                    min_spec(col, lines[line - 1].len() as int),
                    recall,
                    StepOut::Edited,
                )
            } else {
                (lines, line, col, recall, StepOut::Unchanged)
            }
        },
        InputEvent::Down => if single {
            if recall < hist.len() {
                let newl = if recall + 1 == hist.len() {
                    Seq::<char>::empty()
                } else {
                    hist[recall + 1]
                };
                (lines.update(line, newl), line, newl.len() as int, recall + 1, StepOut::Edited)
            } else {
                (lines, line, col, recall, StepOut::Unchanged)
            }
        } else {
            if line + 1 < lines.len() {
                (
                    lines,
                    line + 1,
                    min_spec(col, lines[line + 1].len() as int),
                    recall,
                    StepOut::Edited,
                )
            } else {
                (lines, line, col, recall, StepOut::Unchanged)
            }
        },
        InputEvent::Home => (lines, line, 0, recall, StepOut::Edited),
        InputEvent::End => (lines, line, lines[line].len() as int, recall, StepOut::Edited),
        InputEvent::Enter => if single || lines[line] == seq![term] {
            (lines, line, col, recall, StepOut::Submit)
        } else {
            (
                lines.update(line, lines[line].take(col)).insert(line + 1, lines[line].skip(col)),
                line + 1,
                0,
                recall,
                StepOut::Reshaped,
            )
        },
        InputEvent::Interrupt => (lines, line, col, recall, StepOut::Cancel),
        InputEvent::Resize(_, _) => (lines, line, col, recall, StepOut::Reshaped),
        InputEvent::Other => (lines, line, col, recall, StepOut::Unchanged),
    }
}

/// The terminator character the machine runs with: the given one, or a
/// newline in single-line mode, where it is never consulted.
pub open spec fn term_char_spec(terminator: Option<char>) -> char {
    match terminator {
        Option::Some(t) => t,
        Option::None => '\n',
    }
}

/// Folds the transition over a sequence of events until one submits or
/// cancels: the lines, cursor and recall after the run, and the
/// terminating outcome, None when the events run out first.
pub open spec fn run_spec(
    lines: Seq<Seq<char>>,
    line: int,
    col: int,
    recall: int,
    hist: Seq<Seq<char>>,
    single: bool,
    term: char,
    evs: Seq<InputEvent>,
) -> (Seq<Seq<char>>, int, int, int, Option<StepOut>)
    decreases evs.len(),
{
    if evs.len() == 0 {
        (lines, line, col, recall, Option::None)
    } else {
        let sp = step_spec(lines, line, col, recall, hist, single, term, evs[0]);
        if sp.4 == StepOut::Submit || sp.4 == StepOut::Cancel {
            (sp.0, sp.1, sp.2, sp.3, Option::Some(sp.4))
        } else {
            run_spec(sp.0, sp.1, sp.2, sp.3, hist, single, term, evs.drop_first())
        }
    }
}




/// A line with no raw newline inside it.
pub open spec fn line_no_newline(l: Seq<char>) -> bool {
    forall|i: int| 0 <= i < l.len() ==> l[i] != '\n'
}

/// A buffer or history none of whose lines holds a raw newline.
pub open spec fn lines_no_newline(ls: Seq<Seq<char>>) -> bool {
    forall|j: int| 0 <= j < ls.len() ==> line_no_newline(#[trigger] ls[j])
}

/// No transition puts a raw newline inside a line: inserts of control
/// characters are ignored, and every other transition only rearranges,
/// splits, joins or substitutes existing lines and history entries.
pub proof fn lemma_step_spec_no_newline(
    lines: Seq<Seq<char>>,
    line: int,
    col: int,
    recall: int,
    hist: Seq<Seq<char>>,
    single: bool,
    term: char,
    ev: InputEvent,
)
    requires
        model_wf(lines, line, col, recall, hist),
        lines_no_newline(lines),
        lines_no_newline(hist),
    ensures
        lines_no_newline(step_spec(lines, line, col, recall, hist, single, term, ev).0),
{
    let nl = step_spec(lines, line, col, recall, hist, single, term, ev).0;
    assert forall|j: int| 0 <= j < nl.len() implies line_no_newline(#[trigger] nl[j]) by {
        assert(line_no_newline(lines[line]));
        if 0 <= j < lines.len() {
            assert(line_no_newline(lines[j]));
        }
        if j > 0 && j - 1 < lines.len() {
            assert(line_no_newline(lines[j - 1]));
        }
        if j + 1 < lines.len() {
            assert(line_no_newline(lines[j + 1]));
        }
        match ev {
            InputEvent::Up => {
                if single && recall > 0 {
                    assert(line_no_newline(hist[recall - 1]));
                }
            },
            InputEvent::Down => {
                if single && recall + 1 < hist.len() {
                    assert(line_no_newline(hist[recall + 1]));
                }
            },
            _ => {},
        }
    }
}


/// No run of events puts a raw newline inside a line, as long as the
/// history recall can only substitute newline-free entries.
pub proof fn lemma_run_spec_no_newline(
    lines: Seq<Seq<char>>,
    line: int,
    col: int,
    recall: int,
    hist: Seq<Seq<char>>,
    single: bool,
    term: char,
    evs: Seq<InputEvent>,
)
    requires
        model_wf(lines, line, col, recall, hist),
        lines_no_newline(lines),
        lines_no_newline(hist),
    ensures
        lines_no_newline(run_spec(lines, line, col, recall, hist, single, term, evs).0),
    decreases evs.len(),
{
    if evs.len() > 0 {
        lemma_step_spec_wf(lines, line, col, recall, hist, single, term, evs[0]);
        lemma_step_spec_no_newline(lines, line, col, recall, hist, single, term, evs[0]);
        let sp = step_spec(lines, line, col, recall, hist, single, term, evs[0]);
        if !(sp.4 == StepOut::Submit || sp.4 == StepOut::Cancel) {
            lemma_run_spec_no_newline(sp.0, sp.1, sp.2, sp.3, hist, single, term, evs.drop_first());
        }
    }
}

/// An interrupt is acted on at once: as the next event it cancels the
/// run with the lines, cursor and recall index untouched, so nothing is
/// submitted and nothing of the state leaks into a result.
pub proof fn lemma_interrupt_cancels(
    lines: Seq<Seq<char>>,
    line: int,
    col: int,
    recall: int,
    hist: Seq<Seq<char>>,
    single: bool,
    term: char,
    evs: Seq<InputEvent>,
)
    requires
        evs.len() > 0,
        evs[0] == InputEvent::Interrupt,
    ensures
        run_spec(lines, line, col, recall, hist, single, term, evs) == (
            lines,
            line,
            col,
            recall,
            Option::Some(StepOut::Cancel),
        ),
{
}

/// The machine's invariant over its mathematical state: at least one
/// line, the cursor on an existing line, the cursor column within
/// [0, that line's length], and the recall index within
/// [0, history length].
pub open spec fn model_wf(
    lines: Seq<Seq<char>>,
    line: int,
    col: int,
    recall: int,
    hist: Seq<Seq<char>>,
) -> bool {
    &&& lines.len() >= 1
    &&& 0 <= line < lines.len()
    &&& 0 <= col <= lines[line].len()
    &&& 0 <= recall <= hist.len()
}

/// One transition keeps the machine's invariant, whatever the event: in
/// particular the cursor column never leaves [0, current line length]
/// and the recall index never leaves [0, history length].
pub proof fn lemma_step_spec_wf(
    lines: Seq<Seq<char>>,
    line: int,
    col: int,
    recall: int,
    hist: Seq<Seq<char>>,
    single: bool,
    term: char,
    ev: InputEvent,
)
    requires
        model_wf(lines, line, col, recall, hist),
    ensures
        ({
            let sp = step_spec(lines, line, col, recall, hist, single, term, ev);
            model_wf(sp.0, sp.1, sp.2, sp.3, hist)
        }),
{
}

/// Any run of events from a well-formed state — one of an initially
/// empty buffer among them — keeps the machine's invariant: at every
/// exit the cursor column lies within [0, current line length] and the
/// recall index within [0, history length].
pub proof fn lemma_run_spec_wf(
    lines: Seq<Seq<char>>,
    line: int,
    col: int,
    recall: int,
    hist: Seq<Seq<char>>,
    single: bool,
    term: char,
    evs: Seq<InputEvent>,
)
    requires
        model_wf(lines, line, col, recall, hist),
    ensures
        ({
            let rs = run_spec(lines, line, col, recall, hist, single, term, evs);
            model_wf(rs.0, rs.1, rs.2, rs.3, hist)
        }),
    decreases evs.len(),
{
    if evs.len() > 0 {
        lemma_step_spec_wf(lines, line, col, recall, hist, single, term, evs[0]);
        let sp = step_spec(lines, line, col, recall, hist, single, term, evs[0]);
        if !(sp.4 == StepOut::Submit || sp.4 == StepOut::Cancel) {
            lemma_run_spec_wf(sp.0, sp.1, sp.2, sp.3, hist, single, term, evs.drop_first());
        }
    }
}

/// One transition of the interactive input state machine.
///
/// Only printable characters are inserted: an insert of a control
/// character (a raw newline among them) leaves the buffer unchanged, so
/// no typed control byte can end up inside a submitted line.
///
/// `buf` is the edit buffer, `recall` the history recall index (an index
/// into `history`; equal to its length when no entry is recalled — recall
/// starts only from an empty line, and then walks the history),
/// `single` selects single-line command mode, and `terminator` is the
/// sentinel character that ends multi-line input. The function never
/// touches `history` (it is taken read-only) and keeps the buffer
/// well-formed and the recall index within [0, history length].
#[verifier::rlimit(80)]
pub fn step(
    buf: &mut EditBuffer,
    recall: &mut usize,
    history: &Vec<String>,
    single: bool,
    terminator: char,
    ev: InputEvent,
) -> (out: StepOut)
    requires
        old(buf).wf(),
        *old(recall) <= history@.len(),
    ensures
        final(buf).wf(),
        *final(recall) <= history@.len(),
        match ev {
            InputEvent::Insert(ch) => {
                if crate::escape::is_ctrl(ch) {
                    out == StepOut::Unchanged && *final(buf) == *old(buf)
                } else {
                    &&& out == StepOut::Edited
                    &&& final(buf).linesv() == old(buf).with_cur(
                        old(buf).cur().insert(old(buf).col as int, ch),
                    )
                    &&& final(buf).line == old(buf).line
                    &&& final(buf).col == old(buf).col + 1
                }
            },
            InputEvent::Backspace => {
                if old(buf).col > 0 {
                    &&& out == StepOut::Edited
                    &&& final(buf).linesv() == old(buf).with_cur(
                        old(buf).cur().remove(old(buf).col - 1),
                    )
                    &&& final(buf).line == old(buf).line
                    &&& final(buf).col == old(buf).col - 1
                } else if old(buf).line > 0 {
                    &&& out == StepOut::Reshaped
                    &&& final(buf).linesv() == old(buf).linesv().update(
                        old(buf).line - 1,
                        old(buf).linesv()[old(buf).line - 1] + old(buf).cur(),
                    ).remove(old(buf).line as int)
                    &&& final(buf).line == old(buf).line - 1
                    &&& final(buf).col == old(buf).linesv()[old(buf).line - 1].len()
                } else {
                    out == StepOut::Unchanged && *final(buf) == *old(buf)
                }
            },
            InputEvent::Delete => {
                if (old(buf).col as int) < old(buf).cur().len() {
                    &&& out == StepOut::Edited
                    &&& final(buf).linesv() == old(buf).with_cur(
                        old(buf).cur().remove(old(buf).col as int),
                    )
                    &&& final(buf).line == old(buf).line
                    &&& final(buf).col == old(buf).col
                } else if old(buf).line + 1 < old(buf).linesv().len() {
                    &&& out == StepOut::Reshaped
                    &&& final(buf).linesv() == old(buf).with_cur(
                        old(buf).cur() + old(buf).linesv()[old(buf).line + 1],
                    ).remove(old(buf).line + 1)
                    &&& final(buf).line == old(buf).line
                    &&& final(buf).col == old(buf).col
                } else {
                    out == StepOut::Unchanged && *final(buf) == *old(buf)
                }
            },
            InputEvent::Left => {
                if old(buf).col > 0 {
                    out == StepOut::Edited && *final(buf) == (EditBuffer {
                        col: (old(buf).col - 1) as usize,
                        ..*old(buf)
                    })
                } else if old(buf).line > 0 {
                    &&& out == StepOut::Edited
                    &&& final(buf).linesv() == old(buf).linesv()
                    &&& final(buf).line == old(buf).line - 1
                    &&& final(buf).col == old(buf).linesv()[old(buf).line - 1].len()
                } else {
                    out == StepOut::Unchanged && *final(buf) == *old(buf)
                }
            },
            InputEvent::Right => {
                if (old(buf).col as int) < old(buf).cur().len() {
                    out == StepOut::Edited && *final(buf) == (EditBuffer {
                        col: (old(buf).col + 1) as usize,
                        ..*old(buf)
                    })
                } else if old(buf).line + 1 < old(buf).linesv().len() {
                    out == StepOut::Edited && *final(buf) == (EditBuffer {
                        line: (old(buf).line + 1) as usize,
                        col: 0,
                        ..*old(buf)
                    })
                } else {
                    out == StepOut::Unchanged && *final(buf) == *old(buf)
                }
            },
            InputEvent::Up => {
                if single {
                    if *old(recall) > 0 && (old(buf).cur().len() == 0 || (*old(recall) as int)
                        < history@.len()) {
                        &&& out == StepOut::Edited
                        &&& *final(recall) == *old(recall) - 1
                        &&& final(buf).linesv() == old(buf).with_cur(
                            history@[*old(recall) - 1]@,
                        )
                        &&& final(buf).line == old(buf).line
                        &&& final(buf).col == history@[*old(recall) - 1]@.len()
                    } else {
                        out == StepOut::Unchanged && *final(buf) == *old(buf) && *final(recall)
                            == *old(recall)
                    }
                } else {
                    if old(buf).line > 0 {
                        &&& out == StepOut::Edited
                        &&& final(buf).linesv() == old(buf).linesv()
                        &&& final(buf).line == old(buf).line - 1
                        &&& final(buf).col == min_spec(
                            old(buf).col as int,
                            old(buf).linesv()[old(buf).line - 1].len() as int,
                        )
                    } else {
                        out == StepOut::Unchanged && *final(buf) == *old(buf)
                    }
                }
            },
            InputEvent::Down => {
                if single {
                    if (*old(recall) as int) < history@.len() {
                        &&& out == StepOut::Edited
                        &&& *final(recall) == *old(recall) + 1
                        &&& final(buf).linesv() == old(buf).with_cur(
                            if *old(recall) + 1 == history@.len() {
                                Seq::<char>::empty()
                            } else {
                                history@[*old(recall) + 1]@
                            },
                        )
                        &&& final(buf).line == old(buf).line
                        &&& final(buf).col == final(buf).cur().len()
                    } else {
                        out == StepOut::Unchanged && *final(buf) == *old(buf) && *final(recall)
                            == *old(recall)
                    }
                } else {
                    if old(buf).line + 1 < old(buf).linesv().len() {
                        &&& out == StepOut::Edited
                        &&& final(buf).linesv() == old(buf).linesv()
                        &&& final(buf).line == old(buf).line + 1
                        &&& final(buf).col == min_spec(
                            old(buf).col as int,
                            old(buf).linesv()[old(buf).line + 1].len() as int,
                        )
                    } else {
                        out == StepOut::Unchanged && *final(buf) == *old(buf)
                    }
                }
            },
            InputEvent::Home => {
                out == StepOut::Edited && *final(buf) == (EditBuffer { col: 0usize, ..*old(buf) })
            },
            InputEvent::End => {
                &&& out == StepOut::Edited
                &&& final(buf).linesv() == old(buf).linesv()
                &&& final(buf).line == old(buf).line
                &&& final(buf).col == old(buf).cur().len()
            },
            InputEvent::Enter => {
                if single || at_terminator(*old(buf), terminator) {
                    out == StepOut::Submit && *final(buf) == *old(buf)
                } else {
                    &&& out == StepOut::Reshaped
                    &&& final(buf).linesv() == old(buf).with_cur(
                        old(buf).cur().take(old(buf).col as int),
                    ).insert(old(buf).line + 1, old(buf).cur().skip(old(buf).col as int))
                    &&& final(buf).line == old(buf).line + 1
                    &&& final(buf).col == 0
                }
            },
            InputEvent::Interrupt => out == StepOut::Cancel && *final(buf) == *old(buf),
            InputEvent::Resize(_, _) => out == StepOut::Reshaped && *final(buf) == *old(buf),
            InputEvent::Other => out == StepOut::Unchanged && *final(buf) == *old(buf),
        },
        match ev {
            InputEvent::Up => true,
            InputEvent::Down => true,
            _ => *final(recall) == *old(recall),
        },
        ({
            let sp = step_spec(
                old(buf).linesv(),
                old(buf).line as int,
                old(buf).col as int,
                *old(recall) as int,
                stringsv(history@),
                single,
                terminator,
                ev,
            );
            &&& final(buf).linesv() == sp.0
            &&& final(buf).line == sp.1
            &&& final(buf).col == sp.2
            &&& *final(recall) == sp.3
            &&& out == sp.4
        }),
{
    match ev {
        InputEvent::Insert(ch) => {
            if (ch as u32) < 32 || ch as u32 == 127 {
                StepOut::Unchanged
            } else {
                let mut l = copy_chars(&buf.lines[buf.line]);
                l.insert(buf.col, ch);
                let n = l.len();
                set_cur(buf, l);
                assert(buf.col < n);
                buf.col = buf.col + 1;
                StepOut::Edited
            }
        },
        InputEvent::Backspace => {
            if buf.col > 0 {
                let mut l = copy_chars(&buf.lines[buf.line]);
                l.remove(buf.col - 1);
                set_cur(buf, l);
                buf.col = buf.col - 1;
                StepOut::Edited
            } else if buf.line > 0 {
                let cur = buf.lines.remove(buf.line);
                let mut prev = buf.lines.remove(buf.line - 1);
                let plen = prev.len();
                let mut merged = prev;
                let mut extra = cur;
                let mut k: usize = 0;
                let ghost target = old(buf).linesv()[old(buf).line - 1] + old(buf).cur();
                while k < extra.len()
                    invariant
                        old(buf).wf(),
                        old(buf).line > 0,
                        k <= extra@.len(),
                        merged@ == old(buf).linesv()[old(buf).line - 1] + extra@.subrange(
                            0,
                            k as int,
                        ),
                    decreases extra.len() - k,
                {
                    merged.push(extra[k]);
                    proof {
                        assert(0 <= old(buf).line - 1 < old(buf).linesv().len());
                        assert(merged@ =~= old(buf).linesv()[old(buf).line - 1] + extra@.subrange(
                            0,
                            k + 1 as int,
                        ));
                    }
                    k = k + 1;
                }
                proof {
                    assert(extra@.subrange(0, extra@.len() as int) =~= extra@);
                }
                buf.lines.insert(buf.line - 1, merged);
                buf.line = buf.line - 1;
                buf.col = plen;
                proof {
                    assert(final(buf).linesv() =~= old(buf).linesv().update(
                        old(buf).line - 1,
                        old(buf).linesv()[old(buf).line - 1] + old(buf).cur(),
                    ).remove(old(buf).line as int));
                }
                StepOut::Reshaped
            } else {
                StepOut::Unchanged
            }
        },
        InputEvent::Delete => {
            if buf.col < buf.lines[buf.line].len() {
                let mut l = copy_chars(&buf.lines[buf.line]);
                l.remove(buf.col);
                set_cur(buf, l);
                StepOut::Edited
            } else if buf.line < buf.lines.len() - 1 {
                let next = buf.lines.remove(buf.line + 1);
                let mut merged = copy_chars(&buf.lines[buf.line]);
                let mut k: usize = 0;
                while k < next.len()
                    invariant
                        k <= next@.len(),
                        merged@ == old(buf).cur() + next@.subrange(0, k as int),
                    decreases next.len() - k,
                {
                    merged.push(next[k]);
                    proof {
                        assert(merged@ =~= old(buf).cur() + next@.subrange(0, k + 1 as int));
                    }
                    k = k + 1;
                }
                proof {
                    assert(next@.subrange(0, next@.len() as int) =~= next@);
                }
                let i = buf.line;
                buf.lines.remove(i);
                buf.lines.insert(i, merged);
                proof {
                    assert(final(buf).linesv() =~= old(buf).with_cur(
                        old(buf).cur() + old(buf).linesv()[old(buf).line + 1],
                    ).remove(old(buf).line + 1));
                }
                StepOut::Reshaped
            } else {
                StepOut::Unchanged
            }
        },
        InputEvent::Left => {
            if buf.col > 0 {
                buf.col = buf.col - 1;
                StepOut::Edited
            } else if buf.line > 0 {
                buf.line = buf.line - 1;
                buf.col = buf.lines[buf.line].len();
                StepOut::Edited
            } else {
                StepOut::Unchanged
            }
        },
        InputEvent::Right => {
            if buf.col < buf.lines[buf.line].len() {
                buf.col = buf.col + 1;
                StepOut::Edited
            } else if buf.line < buf.lines.len() - 1 {
                buf.line = buf.line + 1;
                buf.col = 0;
                StepOut::Edited
            } else {
                StepOut::Unchanged
            }
        },
        InputEvent::Up => {
            if single {
                if *recall > 0 && (buf.lines[buf.line].len() == 0 || *recall < history.len()) {
                    *recall = *recall - 1;
                    let entry = str_to_chars(history[*recall].as_str());
                    let n = entry.len();
                    set_cur(buf, entry);
                    buf.col = n;
                    StepOut::Edited
                } else {
                    StepOut::Unchanged
                }
            } else {
                if buf.line > 0 {
                    buf.line = buf.line - 1;
                    if buf.col > buf.lines[buf.line].len() {
                        buf.col = buf.lines[buf.line].len();
                    }
                    StepOut::Edited
                } else {
                    StepOut::Unchanged
                }
            }
        },
        InputEvent::Down => {
            if single {
                if *recall < history.len() {
                    *recall = *recall + 1;
                    let entry = if *recall == history.len() {
                        Vec::new()
                    } else {
                        str_to_chars(history[*recall].as_str())
                    };
                    let n = entry.len();
                    set_cur(buf, entry);
                    buf.col = n;
                    StepOut::Edited
                } else {
                    StepOut::Unchanged
                }
            } else {
                if buf.line < buf.lines.len() - 1 {
                    buf.line = buf.line + 1;
                    if buf.col > buf.lines[buf.line].len() {
                        buf.col = buf.lines[buf.line].len();
                    }
                    StepOut::Edited
                } else {
                    StepOut::Unchanged
                }
            }
        },
        InputEvent::Home => {
            buf.col = 0;
            StepOut::Edited
        },
        InputEvent::End => {
            buf.col = buf.lines[buf.line].len();
            StepOut::Edited
        },
        InputEvent::Enter => {
            if single {
                StepOut::Submit
            } else if buf.lines[buf.line].len() == 1 && buf.lines[buf.line][0] == terminator {
                proof {
                    assert(old(buf).cur() =~= seq![terminator]);
                }
                StepOut::Submit
            } else {
                let cur = copy_chars(&buf.lines[buf.line]);
                let mut head: Vec<char> = Vec::new();
                let mut k: usize = 0;
                while k < buf.col
                    invariant
                        old(buf).wf(),
                        *buf == *old(buf),
                        cur@ == old(buf).cur(),
                        k <= old(buf).col,
                        head@ == old(buf).cur().subrange(0, k as int),
                    decreases buf.col - k,
                {
                    head.push(cur[k]);
                    proof {
                        assert(head@ =~= old(buf).cur().subrange(0, k + 1 as int));
                    }
                    k = k + 1;
                }
                let mut tail: Vec<char> = Vec::new();
                let mut m: usize = buf.col;
                while m < cur.len()
                    invariant
                        old(buf).wf(),
                        *buf == *old(buf),
                        cur@ == old(buf).cur(),
                        old(buf).col <= m <= cur@.len(),
                        tail@ == old(buf).cur().subrange(old(buf).col as int, m as int),
                    decreases cur.len() - m,
                {
                    tail.push(cur[m]);
                    proof {
                        assert(tail@ =~= old(buf).cur().subrange(old(buf).col as int, m + 1 as int));
                    }
                    m = m + 1;
                }
                set_cur(buf, head);
                let i = buf.line;
                let nl = buf.lines.len();
                proof {
                    assert(buf.lines@.len() == linesv_of(buf.lines@).len());
                    assert(linesv_of(buf.lines@) == old(buf).with_cur(head@));
                    assert(old(buf).with_cur(head@).len() == old(buf).linesv().len());
                }
                assert(i < nl);
                let ghost midlines = buf.lines@;
                buf.lines.insert(i + 1, tail);
                buf.line = buf.line + 1;
                buf.col = 0;
                proof {
                    lemma_linesv_insert(midlines, i + 1, tail);
                    assert(old(buf).cur().take(old(buf).col as int) =~= old(buf).cur().subrange(
                        0,
                        old(buf).col as int,
                    ));
                    assert(old(buf).cur().skip(old(buf).col as int) =~= old(buf).cur().subrange(
                        old(buf).col as int,
                        old(buf).cur().len() as int,
                    ));
                    assert(final(buf).linesv() =~= old(buf).with_cur(
                        old(buf).cur().take(old(buf).col as int),
                    ).insert(old(buf).line + 1, old(buf).cur().skip(old(buf).col as int)));
                }
                StepOut::Reshaped
            }
        },
        InputEvent::Interrupt => StepOut::Cancel,
        InputEvent::Resize(_, _) => StepOut::Reshaped,
        InputEvent::Other => StepOut::Unchanged,
    }
}

/// The smaller of two integers.
pub open spec fn min_spec(a: int, b: int) -> int {
    if a <= b {
        a
    } else {
        b
    }
}

/// The characters of a string, in order.
pub fn str_to_chars(s: &str) -> (r: Vec<char>)
    ensures
        r@ == s@,
{
    let n = s.unicode_len();
    let mut r: Vec<char> = Vec::new();
    let mut i: usize = 0;
    while i < n
        invariant
            n == s@.len(),
            i <= n,
            r@ == s@.subrange(0, i as int),
        decreases n - i,
    {
        r.push(s.get_char(i));
        proof {
            assert(r@ =~= s@.subrange(0, i + 1 as int));
        }
        i = i + 1;
    }
    proof {
        assert(s@.subrange(0, s@.len() as int) =~= s@);
    }
    r
}

} // verus!
