use vstd::prelude::*;
use crate::errors::UiError;
use crate::input::{
    EditBuffer, InputEvent, StepOut, step, run_spec, term_char_spec, submitted_lines,
    submitted_of, str_to_chars, linesv_of, stringsv, lemma_linesv_push, lemma_stringsv_push,
    line_no_newline, lines_no_newline, lemma_step_spec_no_newline,
};
use crate::render::{Segment, segs_wf, seg_text, render_line, flatten_spans, dec_chars, line_text_spec, dec_spec};
use crate::syntax::{
    has_plain_text, load_default_syntaxes, load_default_theme, find_syntax_by_extension,
    find_syntax_plain_text, new_highlighter, highlight_line, ext_chars, base_chars, resolved_spec,
};
use crate::term::{
    term_size, queue_text, queue_color, queue_reset_color, queue_clear_line, flush_out,
    enable_raw, disable_raw, next_event, chars_to_string,
};

verus! {

/// The last character of a line that a newline ends: a carriage return
/// directly before the newline is not part of the line.
pub open spec fn strip_cr(l: Seq<char>) -> Seq<char> {
    if l.len() > 0 && l.last() == '\r' {
        l.drop_last()
    } else {
        l
    }
}

/// One character of message splitting: a newline closes the line under
/// construction, anything else extends it.
pub open spec fn split_step(acc: (Seq<Seq<char>>, Seq<char>), c: char) -> (Seq<Seq<char>>, Seq<
    char,
>) {
    if c == '\n' {
        (acc.0.push(strip_cr(acc.1)), Seq::empty())
    } else {
        (acc.0, acc.1.push(c))
    }
}

/// The lines closed, and the line still open, after the first `i`
/// characters of a message.
pub open spec fn split_fold(s: Seq<char>, i: int) -> (Seq<Seq<char>>, Seq<char>)
    decreases i,
{
    if i <= 0 {
        (Seq::empty(), Seq::empty())
    } else {
        split_step(split_fold(s, i - 1), s[i - 1])
    }
}

/// A message's lines: separated by newlines, a carriage return before a
/// newline dropped, and no empty last line for a trailing newline.
pub open spec fn split_lines_spec(s: Seq<char>) -> Seq<Seq<char>> {
    let st = split_fold(s, s.len() as int);
    if st.1.len() == 0 {
        st.0
    } else {
        st.0.push(st.1)
    }
}

/// Splits a message into its lines.
pub fn split_lines(text: &Vec<char>) -> (r: Vec<Vec<char>>)
    ensures
        linesv_of(r@) == split_lines_spec(text@),
{
    let mut acc: Vec<Vec<char>> = Vec::new();
    let mut cur: Vec<char> = Vec::new();
    let mut i: usize = 0;
    while i < text.len()
        invariant
            i <= text@.len(),
            linesv_of(acc@) == split_fold(text@, i as int).0,
            cur@ == split_fold(text@, i as int).1,
        decreases text.len() - i,
    {
        let c = text[i];
        if c == '\n' {
            if cur.len() > 0 && cur[cur.len() - 1] == '\r' {
                cur.pop();
            }
            let ghost accg = acc@;
            let ghost curg = cur@;
            acc.push(cur);
            proof {
                lemma_linesv_push(accg, acc@.last());
                assert(curg == strip_cr(split_fold(text@, i as int).1));
            }
            cur = Vec::new();
        } else {
            cur.push(c);
        }
        i = i + 1;
    }
    if cur.len() > 0 {
        let ghost accg = acc@;
        acc.push(cur);
        proof {
            lemma_linesv_push(accg, acc@.last());
            assert(text@.len() as int == i as int);
        }
    }
    proof {
        assert(linesv_of(acc@) =~= split_lines_spec(text@));
    }
    acc
}

/// Queues a run of colored segments on the terminal, in order, setting
/// each segment's color before its text; the first failing write aborts
/// the rest.
pub fn print_segments(segs: &Vec<Segment>) -> (r: Result<(), UiError>)
    requires
        segs_wf(segs@),
    ensures
        match r {
            Result::Ok(()) => true,
            Result::Err(e) => e == UiError::TerminalWrite,
        },
{
    let mut i: usize = 0;
    while i < segs.len()
        invariant
            segs_wf(segs@),
        decreases segs.len() - i,
    {
        let colored = match segs[i].color {
            Option::Some(c) => queue_color(c),
            Option::None => queue_reset_color(),
        };
        match colored {
            Result::Ok(()) => {},
            Result::Err(()) => {
                return Result::Err(UiError::TerminalWrite);
            },
        }
        match queue_text(&segs[i].text) {
            Result::Ok(()) => {},
            Result::Err(()) => {
                return Result::Err(UiError::TerminalWrite);
            },
        }
        i = i + 1;
    }
    match queue_reset_color() {
        Result::Ok(()) => Result::Ok(()),
        Result::Err(()) => Result::Err(UiError::TerminalWrite),
    }
}

/// Queues the raw-mode-safe line terminator.
fn queue_line_end() -> (r: Result<(), UiError>)
    ensures
        match r {
            Result::Ok(()) => true,
            Result::Err(e) => e == UiError::TerminalWrite,
        },
{
    let mut nl: Vec<char> = Vec::new();
    nl.push('\n');
    nl.push('\r');
    match queue_text(&nl) {
        Result::Ok(()) => Result::Ok(()),
        Result::Err(()) => Result::Err(UiError::TerminalWrite),
    }
}

/// The terminal UI component: the grammar set and theme loaded once for
/// the process, the cached terminal geometry, and the append-only command
/// history.
pub struct HighlightingUI {
    pub syntax_lib: syntect::parsing::SyntaxSet,
    pub theme: syntect::highlighting::Theme,
    pub term_size: (usize, usize),
    pub command_history: Vec<String>,
}

impl HighlightingUI {
    /// The submitted commands, in submission order.
    pub open spec fn historyv(self) -> Seq<Seq<char>> {
        stringsv(self.command_history@)
    }

    /// Well-formedness: the grammar set holds the plain-text fallback.
    pub open spec fn wf(self) -> bool {
        has_plain_text(self.syntax_lib)
    }

    /// Loads the theme and grammar set and takes a snapshot of the
    /// terminal's size; the command history starts empty.
    pub fn new() -> (ui: HighlightingUI)
        ensures
            ui.wf(),
            ui.command_history@.len() == 0,
    {
        let theme = load_default_theme();
        let syntax = load_default_syntaxes();
        let size: (usize, usize) = match term_size() {
            Result::Ok((c, r)) => (c as usize, r as usize),
            Result::Err(()) => (80, 24),
        };
        HighlightingUI { syntax_lib: syntax, theme, term_size: size, command_history: Vec::new() }
    }

    /// Writes a message line by line with raw-mode-safe line endings; a
    /// failing write aborts the rest and is reported as a terminal write
    /// failure. The component's state is untouched.
    pub fn print_message(&mut self, text: &str) -> (r: Result<(), UiError>)
        ensures
            *final(self) == *old(self),
            match r {
                Result::Ok(()) => true,
                Result::Err(e) => e == UiError::TerminalWrite,
            },
    {
        let chars = str_to_chars(text);
        let lines = split_lines(&chars);
        let mut i: usize = 0;
        while i < lines.len()
            decreases lines.len() - i,
        {
            match queue_text(&lines[i]) {
                Result::Ok(()) => {},
                Result::Err(()) => {
                    return Result::Err(UiError::TerminalWrite);
                },
            }
            match queue_line_end() {
                Result::Ok(()) => {},
                Result::Err(e) => {
                    return Result::Err(e);
                },
            }
            i = i + 1;
        }
        match flush_out() {
            Result::Ok(()) => Result::Ok(()),
            Result::Err(()) => Result::Err(UiError::TerminalWrite),
        }
    }

    /// Renders a selection of lines into colored segments without
    /// printing them: line `start + i` of the file is tokenized against
    /// the grammar resolved from `path`, and rendered with numbering,
    /// literal escaping and the numbering width of the selection's last
    /// line number.
    ///
    /// On success there is one segment run for each selected line, and
    /// its text reads exactly as the rendered line: numbering cell,
    /// then escaped content.
    pub fn render_selection(
        &self,
        lines: &Vec<String>,
        start: usize,
        end: usize,
        numbered: bool,
        literal: bool,
        path: &str,
    ) -> (r: Result<Vec<Vec<Segment>>, UiError>)
        requires
            self.wf(),
            1 <= start <= end <= lines@.len(),
        ensures
            match r {
                Result::Ok(segss) => {
                    &&& segss@.len() == end - start + 1
                    &&& forall|i: int|
                        0 <= i < segss@.len() ==> seg_text(#[trigger] segss@[i]@) == line_text_spec(
                            lines@[start - 1 + i]@,
                            literal,
                            Option::None,
                            numbered,
                            (start + i) as nat,
                            dec_spec(end as nat).len() as int,
                            Option::None,
                        )
                    &&& forall|i: int| 0 <= i < segss@.len() ==> segs_wf(#[trigger] segss@[i]@)
                },
                Result::Err(e) => e == UiError::TerminalWrite,
            },
    {
        let syntax = self.resolve(path);
        let mut h = new_highlighter(syntax, &self.theme);
        let width = dec_chars(end).len();
        let mut out: Vec<Vec<Segment>> = Vec::new();
        let mut li: usize = start - 1;
        while li < end
            invariant
                self.wf(),
                1 <= start <= end <= lines@.len(),
                start - 1 <= li <= end,
                width == dec_spec(end as nat).len(),
                out@.len() == li - (start - 1),
                forall|i: int|
                    0 <= i < out@.len() ==> seg_text(#[trigger] out@[i]@) == line_text_spec(
                        lines@[start - 1 + i]@,
                        literal,
                        Option::None,
                        numbered,
                        (start + i) as nat,
                        dec_spec(end as nat).len() as int,
                        Option::None,
                    ),
                forall|i: int| 0 <= i < out@.len() ==> segs_wf(#[trigger] out@[i]@),
            decreases end - li,
        {
            let spans = match highlight_line(&mut h, lines[li].as_str(), &self.syntax_lib) {
                Result::Ok(spans) => spans,
                Result::Err(()) => {
                    return Result::Err(UiError::TerminalWrite);
                },
            };
            let flat = flatten_spans(&spans);
            let segs = render_line(
                &flat.0,
                &flat.1,
                literal,
                Option::None,
                numbered,
                li + 1,
                width,
                Option::None,
            );
            out.push(segs);
            li = li + 1;
        }
        Result::Ok(out)
    }

    /// Resolves the grammar for a file path: first by the path's whole
    /// file name (so files like makefiles are recognized), then by the
    /// file name's extension, falling back to the plain-text grammar.
    /// Resolution is a pure lookup against the immutable grammar set and
    /// never fails.
    pub fn resolve<'a>(&'a self, path: &str) -> (r: &'a syntect::parsing::SyntaxReference)
        requires
            self.wf(),
        ensures
            *r == resolved_spec(self.syntax_lib, path@),
    {
        let pchars = str_to_chars(path);
        let base = base_chars(&pchars);
        let base_str = chars_to_string(&base);
        match find_syntax_by_extension(&self.syntax_lib, base_str.as_str()) {
            Option::Some(s) => s,
            Option::None => {
                let ext = ext_chars(&base);
                let ext_str = chars_to_string(&ext);
                match find_syntax_by_extension(&self.syntax_lib, ext_str.as_str()) {
                    Option::Some(s) => s,
                    Option::None => find_syntax_plain_text(&self.syntax_lib),
                }
            },
        }
    }

    /// Prints an inclusive, 1-based line selection with numbering and
    /// literal mode as configured, and a trailing separator line: exactly
    /// the invalid selections are refused, and any failing terminal write
    /// aborts the remaining output. The component's state is untouched.
    pub fn print_selection(
        &mut self,
        lines: &Vec<String>,
        selection: (usize, usize),
        numbered: bool,
        literal: bool,
        path: &str,
    ) -> (r: Result<(), UiError>)
        requires
            old(self).wf(),
        ensures
            *final(self) == *old(self),
            !(1 <= selection.0 <= selection.1 <= lines@.len()) <==> r == Result::<(), UiError>::Err(
                UiError::InvalidSelection,
            ),
            match r {
                Result::Ok(()) => true,
                Result::Err(e) => e == UiError::InvalidSelection || e == UiError::TerminalWrite,
            },
    {
        if !(1 <= selection.0 && selection.0 <= selection.1 && selection.1 <= lines.len()) {
            return Result::Err(UiError::InvalidSelection);
        }
        let segss = match self.render_selection(
            lines,
            selection.0,
            selection.1,
            numbered,
            literal,
            path,
        ) {
            Result::Ok(s) => s,
            Result::Err(e) => {
                return Result::Err(e);
            },
        };
        let mut i: usize = 0;
        while i < segss.len()
            invariant
                1 <= selection.0 <= selection.1 <= lines@.len(),
                *self == *old(self),
                forall|k: int| 0 <= k < segss@.len() ==> segs_wf(#[trigger] segss@[k]@),
            decreases segss.len() - i,
        {
            match print_segments(&segss[i]) {
                Result::Ok(()) => {},
                Result::Err(e) => {
                    return Result::Err(e);
                },
            }
            match queue_line_end() {
                Result::Ok(()) => {},
                Result::Err(e) => {
                    return Result::Err(e);
                },
            }
            i = i + 1;
        }
        match queue_line_end() {
            Result::Ok(()) => {},
            Result::Err(e) => {
                return Result::Err(e);
            },
        }
        match flush_out() {
            Result::Ok(()) => Result::Ok(()),
            Result::Err(()) => Result::Err(UiError::TerminalWrite),
        }
    }
}

/// The edit buffer the input loop starts from: the given lines, then one
/// empty line that the cursor starts on.
pub fn build_input_buffer(initial: &Vec<String>) -> (b: EditBuffer)
    ensures
        b.wf(),
        b.linesv() == stringsv(initial@).push(Seq::<char>::empty()),
        b.line == initial@.len(),
        b.col == 0,
{
    let mut lines: Vec<Vec<char>> = Vec::new();
    let mut i: usize = 0;
    while i < initial.len()
        invariant
            i <= initial@.len(),
            linesv_of(lines@) == stringsv(initial@).take(i as int),
        decreases initial.len() - i,
    {
        let c = str_to_chars(initial[i].as_str());
        let ghost lg = lines@;
        lines.push(c);
        proof {
            lemma_linesv_push(lg, lines@.last());
            assert(linesv_of(lines@) =~= stringsv(initial@).take(i + 1 as int));
        }
        i = i + 1;
    }
    let ghost lg = lines@;
    lines.push(Vec::new());
    let n = lines.len() - 1;
    proof {
        lemma_linesv_push(lg, lines@.last());
        assert(stringsv(initial@).take(initial@.len() as int) =~= stringsv(initial@));
    }
    let b = EditBuffer { lines, line: n, col: 0 };
    proof {
        assert(b.linesv() =~= stringsv(initial@).push(Seq::<char>::empty()));
        assert(b.cur() =~= Seq::<char>::empty());
    }
    b
}

/// Renders one line of the edit buffer for interactive display: default
/// foreground, the prefix character when given, and the cursor marker at
/// the cursor's column.
fn render_input_line(line: &Vec<char>, cursor: Option<usize>, prefix: Option<char>) -> (segs: Vec<
    Segment,
>)
    requires
        match cursor {
            Option::Some(c) => c <= line@.len(),
            Option::None => true,
        },
    ensures
        seg_text(segs@) == line_text_spec(
            line@,
            false,
            cursor,
            false,
            0nat,
            0,
            prefix,
        ),
        segs_wf(segs@),
{
    let mut colors: Vec<u8> = Vec::new();
    let mut i: usize = 0;
    while i < line.len()
        invariant
            colors@.len() == i,
            i <= line@.len(),
            forall|j: int| 0 <= j < colors@.len() ==> colors@[j] < 16,
        decreases line.len() - i,
    {
        colors.push(7);
        i = i + 1;
    }
    render_line(line, &colors, false, cursor, false, 0, 0, prefix)
}

/// Redraws the line the cursor is on: clears the terminal line and
/// prints the rendered buffer line in its place.
fn redraw_current(buf: &EditBuffer, prefix: Option<char>) -> (r: Result<(), UiError>)
    requires
        buf.wf(),
    ensures
        match r {
            Result::Ok(()) => true,
            Result::Err(e) => e == UiError::TerminalWrite,
        },
{
    match queue_clear_line() {
        Result::Ok(()) => {},
        Result::Err(()) => {
            return Result::Err(UiError::TerminalWrite);
        },
    }
    let mut cr: Vec<char> = Vec::new();
    cr.push('\r');
    match queue_text(&cr) {
        Result::Ok(()) => {},
        Result::Err(()) => {
            return Result::Err(UiError::TerminalWrite);
        },
    }
    let p = if buf.line == 0 {
        prefix
    } else {
        Option::None
    };
    let segs = render_input_line(&buf.lines[buf.line], Option::Some(buf.col), p);
    match print_segments(&segs) {
        Result::Ok(()) => {},
        Result::Err(e) => {
            return Result::Err(e);
        },
    }
    match flush_out() {
        Result::Ok(()) => Result::Ok(()),
        Result::Err(()) => Result::Err(UiError::TerminalWrite),
    }
}

/// Redraws the whole edit buffer, one line under another, with the
/// cursor marker on the cursor's line.
fn full_redraw(buf: &EditBuffer, prefix: Option<char>) -> (r: Result<(), UiError>)
    requires
        buf.wf(),
    ensures
        match r {
            Result::Ok(()) => true,
            Result::Err(e) => e == UiError::TerminalWrite,
        },
{
    let mut i: usize = 0;
    while i < buf.lines.len()
        invariant
            buf.wf(),
        decreases buf.lines.len() - i,
    {
        let cursor = if i == buf.line {
            Option::Some(buf.col)
        } else {
            Option::None
        };
        let p = if i == 0 {
            prefix
        } else {
            Option::None
        };
        proof {
            assert(buf.linesv()[i as int] == buf.lines@[i as int]@);
        }
        let segs = render_input_line(&buf.lines[i], cursor, p);
        match print_segments(&segs) {
            Result::Ok(()) => {},
            Result::Err(e) => {
                return Result::Err(e);
            },
        }
        match queue_line_end() {
            Result::Ok(()) => {},
            Result::Err(e) => {
                return Result::Err(e);
            },
        }
        i = i + 1;
    }
    match flush_out() {
        Result::Ok(()) => Result::Ok(()),
        Result::Err(()) => Result::Err(UiError::TerminalWrite),
    }
}

/// The result of driving the input state machine over a fixed run of
/// events.
pub enum Outcome {
    /// The input was submitted with these lines.
    Submitted(Vec<String>),
    /// The user cancelled the input.
    Cancelled,
    /// The events ran out before the input finished.
    Pending,
}

/// Drives the input state machine over the given events without a
/// terminal: the buffer starts exactly as the interactive loop starts
/// it, and each event is applied in turn until one submits or cancels.
/// The history is only read.
pub fn run_events(
    history: &Vec<String>,
    initial: &Vec<String>,
    terminator: Option<char>,
    events: &Vec<InputEvent>,
) -> (r: Outcome)
    ensures
        ({
            let rs = run_spec(
                stringsv(initial@).push(Seq::<char>::empty()),
                initial@.len() as int,
                0,
                history@.len() as int,
                stringsv(history@),
                terminator is None,
                term_char_spec(terminator),
                events@,
            );
            match r {
                Outcome::Submitted(v) => rs.4 == Option::Some(StepOut::Submit) && stringsv(v@)
                    == submitted_of(rs.0, rs.1, terminator is None),
                Outcome::Cancelled => rs.4 == Option::Some(StepOut::Cancel),
                Outcome::Pending => rs.4 is None,
            }
        }),
        match r {
            Outcome::Submitted(v) => terminator is None ==> v@.len() == 1,
            Outcome::Cancelled => true,
            Outcome::Pending => true,
        },
{
    let single = match terminator {
        Option::Some(_) => false,
        Option::None => true,
    };
    let tchar = match terminator {
        Option::Some(t) => t,
        Option::None => '\n',
    };
    let mut buf = build_input_buffer(initial);
    let mut recall: usize = history.len();
    let ghost rs_total = run_spec(
        stringsv(initial@).push(Seq::<char>::empty()),
        initial@.len() as int,
        0,
        history@.len() as int,
        stringsv(history@),
        single,
        tchar,
        events@,
    );
    proof {
        assert(buf.linesv() == stringsv(initial@).push(Seq::<char>::empty()));
        assert(events@.skip(0) =~= events@);
    }
    let mut i: usize = 0;
    while i < events.len()
        invariant
            buf.wf(),
            recall <= history@.len(),
            single == (terminator is None),
            tchar == term_char_spec(terminator),
            i <= events@.len(),
            rs_total == run_spec(
                stringsv(initial@).push(Seq::<char>::empty()),
                initial@.len() as int,
                0,
                history@.len() as int,
                stringsv(history@),
                single,
                tchar,
                events@,
            ),
            rs_total == run_spec(
                buf.linesv(),
                buf.line as int,
                buf.col as int,
                recall as int,
                stringsv(history@),
                single,
                tchar,
                events@.skip(i as int),
            ),
        decreases events.len() - i,
    {
        let ghost pre_skip = events@.skip(i as int);
        proof {
            assert(pre_skip.len() == events@.len() - i);
            assert(pre_skip[0] == events@[i as int]);
            assert(pre_skip.drop_first() =~= events@.skip(i + 1 as int));
        }
        let out = step(&mut buf, &mut recall, history, single, tchar, events[i]);
        match out {
            StepOut::Submit => {
                proof {
                    assert(rs_total == (
                        buf.linesv(),
                        buf.line as int,
                        buf.col as int,
                        recall as int,
                        Option::Some(StepOut::Submit),
                    ));
                }
                let lv = submitted_lines(&buf, single);
                let mut res: Vec<String> = Vec::new();
                let mut k: usize = 0;
                while k < lv.len()
                    invariant
                        k <= lv@.len(),
                        stringsv(res@) =~= linesv_of(lv@).take(k as int),
                    decreases lv.len() - k,
                {
                    let ghost resg = res@;
                    res.push(chars_to_string(&lv[k]));
                    proof {
                        lemma_stringsv_push(resg, res@.last());
                        assert(res@.last()@ == linesv_of(lv@)[k as int]);
                        assert(stringsv(res@) =~= linesv_of(lv@).take(k + 1 as int));
                    }
                    k = k + 1;
                }
                proof {
                    assert(linesv_of(lv@).take(lv@.len() as int) =~= linesv_of(lv@));
                    assert(stringsv(res@) =~= submitted_of(
                        buf.linesv(),
                        buf.line as int,
                        single,
                    ));
                    if single {
                        assert(linesv_of(lv@).len() == 1);
                    }
                }
                return Outcome::Submitted(res);
            },
            StepOut::Cancel => {
                proof {
                    assert(rs_total == (
                        buf.linesv(),
                        buf.line as int,
                        buf.col as int,
                        recall as int,
                        Option::Some(StepOut::Cancel),
                    ));
                }
                return Outcome::Cancelled;
            },
            _ => {},
        }
        i = i + 1;
    }
    proof {
        assert(events@.skip(events@.len() as int) =~= Seq::<InputEvent>::empty());
    }
    Outcome::Pending
}

impl HighlightingUI {
    /// The interactive input loop: renders the buffer, then blocks on
    /// terminal events and applies each to the edit buffer until one
    /// submits or cancels. The command history is read for recall and
    /// never changed; the loaded theme and grammar set are untouched; a
    /// resize event only refreshes the cached terminal geometry. In
    /// single-line mode (no terminator) a submitted result is exactly one
    /// line. One call accepts at most usize::MAX events; a session that
    /// exceeds that is reported as a failed read.
    pub fn event_input(
        &mut self,
        initial: Vec<String>,
        prefix: Option<char>,
        terminator: Option<char>,
    ) -> (r: Result<Vec<String>, UiError>)
        requires
            old(self).wf(),
        ensures
            final(self).wf(),
            final(self).command_history == old(self).command_history,
            final(self).syntax_lib == old(self).syntax_lib,
            final(self).theme == old(self).theme,
            match r {
                Result::Ok(v) => (terminator is None ==> v@.len() == 1) && ((lines_no_newline(
                    stringsv(initial@),
                ) && lines_no_newline(old(self).historyv())) ==> lines_no_newline(stringsv(v@))),
                Result::Err(e) => e == UiError::Interrupted || e == UiError::TerminalRead || e
                    == UiError::TerminalWrite,
            },
    {
        let single = match terminator {
            Option::Some(_) => false,
            Option::None => true,
        };
        let tchar = match terminator {
            Option::Some(t) => t,
            Option::None => '\n',
        };
        let mut buf = build_input_buffer(&initial);
        let mut recall: usize = self.command_history.len();
        proof {
            if lines_no_newline(stringsv(initial@)) {
                assert forall|j: int| 0 <= j < buf.linesv().len() implies line_no_newline(
                    #[trigger] buf.linesv()[j],
                ) by {
                    if j < initial@.len() {
                        assert(line_no_newline(stringsv(initial@)[j]));
                    } else {
                        assert(buf.linesv()[j] == Seq::<char>::empty());
                    }
                }
            }
        }
        match enable_raw() {
            Result::Ok(()) => {},
            Result::Err(()) => {
                return Result::Err(UiError::TerminalRead);
            },
        }
        match full_redraw(&buf, prefix) {
            Result::Ok(()) => {},
            Result::Err(e) => {
                let _ = disable_raw();
                return Result::Err(e);
            },
        }
        let mut budget: usize = usize::MAX;
        while budget > 0
            invariant
                buf.wf(),
                recall <= self.command_history@.len(),
                self.wf(),
                self.command_history == old(self).command_history,
                self.syntax_lib == old(self).syntax_lib,
                self.theme == old(self).theme,
                single == (terminator is None),
                (lines_no_newline(stringsv(initial@)) && lines_no_newline(old(self).historyv()))
                    ==> lines_no_newline(buf.linesv()),
            decreases budget,
        {
            budget = budget - 1;
            let ev = match next_event() {
                Result::Ok(e) => e,
                Result::Err(()) => {
                    let _ = disable_raw();
                    return Result::Err(UiError::TerminalRead);
                },
            };
            match ev {
                InputEvent::Resize(c, r) => {
                    self.term_size = (c as usize, r as usize);
                },
                _ => {},
            }
            let ghost pl = buf.linesv();
            let ghost pline = buf.line as int;
            let ghost pcol = buf.col as int;
            let ghost prec = recall as int;
            let out = step(&mut buf, &mut recall, &self.command_history, single, tchar, ev);
            proof {
                if lines_no_newline(stringsv(initial@)) && lines_no_newline(old(self).historyv()) {
                    lemma_step_spec_no_newline(
                        pl,
                        pline,
                        pcol,
                        prec,
                        stringsv(self.command_history@),
                        single,
                        tchar,
                        ev,
                    );
                }
            }
            match out {
                StepOut::Submit => {
                    let lv = submitted_lines(&buf, single);
                    let mut res: Vec<String> = Vec::new();
                    let mut k: usize = 0;
                    while k < lv.len()
                        invariant
                            k <= lv@.len(),
                            stringsv(res@) =~= linesv_of(lv@).take(k as int),
                        decreases lv.len() - k,
                    {
                        let ghost resg = res@;
                        res.push(chars_to_string(&lv[k]));
                        proof {
                            lemma_stringsv_push(resg, res@.last());
                            assert(res@.last()@ == linesv_of(lv@)[k as int]);
                            assert(stringsv(res@) =~= linesv_of(lv@).take(k + 1 as int));
                        }
                        k = k + 1;
                    }
                    proof {
                        assert(linesv_of(lv@).take(lv@.len() as int) =~= linesv_of(lv@));
                        if single {
                            assert(linesv_of(lv@).len() == 1);
                        }
                        if lines_no_newline(stringsv(initial@)) && lines_no_newline(
                            old(self).historyv(),
                        ) {
                            assert forall|j: int| 0 <= j < stringsv(res@).len() implies line_no_newline(
                                #[trigger] stringsv(res@)[j],
                            ) by {
                                if single {
                                    assert(stringsv(res@)[j] == buf.linesv()[buf.line as int]);
                                } else {
                                    assert(stringsv(res@)[j] == buf.linesv()[j]);
                                }
                            }
                        }
                    }
                    let _ = disable_raw();
                    let _ = queue_line_end();
                    let _ = flush_out();
                    return Result::Ok(res);
                },
                StepOut::Cancel => {
                    let _ = disable_raw();
                    let _ = queue_line_end();
                    let _ = flush_out();
                    return Result::Err(UiError::Interrupted);
                },
                StepOut::Edited => {
                    match redraw_current(&buf, prefix) {
                        Result::Ok(()) => {},
                        Result::Err(e) => {
                            let _ = disable_raw();
                            return Result::Err(e);
                        },
                    }
                },
                StepOut::Reshaped => {
                    match full_redraw(&buf, prefix) {
                        Result::Ok(()) => {},
                        Result::Err(e) => {
                            let _ = disable_raw();
                            return Result::Err(e);
                        },
                    }
                },
                StepOut::Unchanged => {},
            }
        }
        let _ = disable_raw();
        Result::Err(UiError::TerminalRead)
    }

    /// Reads one line in command mode and appends exactly the submitted
    /// command, and nothing else, to the command history; on any failure
    /// (including an interrupt) the history is unchanged. As long as the
    /// history holds no raw newline, neither does a returned command.
    pub fn get_command(&mut self, prefix: Option<char>) -> (r: Result<String, UiError>)
        requires
            old(self).wf(),
        ensures
            final(self).wf(),
            match r {
                Result::Ok(cmd) => final(self).historyv() == old(self).historyv().push(cmd@) && (
                lines_no_newline(old(self).historyv()) ==> line_no_newline(cmd@)),
                Result::Err(e) => final(self).command_history == old(self).command_history && (e
                    == UiError::Interrupted || e == UiError::TerminalRead || e
                    == UiError::TerminalWrite),
            },
    {
        let init: Vec<String> = Vec::new();
        let ghost initg = init@;
        let mut v = match self.event_input(init, prefix, Option::None) {
            Result::Ok(v) => v,
            Result::Err(e) => {
                return Result::Err(e);
            },
        };
        let ghost vg = v@;
        let cmd = v.remove(0);
        proof {
            assert(lines_no_newline(stringsv(initg)));
            if lines_no_newline(old(self).historyv()) {
                assert(line_no_newline(stringsv(vg)[0]));
                assert(stringsv(vg)[0] == cmd@);
            }
        }
        self.record_command(cmd.as_str());
        Result::Ok(cmd)
    }

    /// Appends a submitted command to the history: exactly that command,
    /// in order, even when it repeats the previous entry; nothing else of
    /// the component changes.
    pub fn record_command(&mut self, cmd: &str)
        ensures
            final(self).historyv() == old(self).historyv().push(cmd@),
            final(self).syntax_lib == old(self).syntax_lib,
            final(self).theme == old(self).theme,
            final(self).term_size == old(self).term_size,
            final(self).wf() == old(self).wf(),
    {
        let copy = chars_to_string(&str_to_chars(cmd));
        let ghost hg = self.command_history@;
        self.command_history.push(copy);
        proof {
            assert(self.historyv() =~= stringsv(hg).push(cmd@));
        }
    }

    /// Reads multi-line input until a line consisting solely of the
    /// terminator character is entered; the command history is never
    /// changed.
    pub fn get_input(&mut self, terminator: char, initial_buffer: Option<Vec<String>>) -> (r:
        Result<Vec<String>, UiError>)
        requires
            old(self).wf(),
        ensures
            final(self).wf(),
            final(self).command_history == old(self).command_history,
            match r {
                Result::Ok(_) => true,
                Result::Err(e) => e == UiError::Interrupted || e == UiError::TerminalRead || e
                    == UiError::TerminalWrite,
            },
    {
        let initial = match initial_buffer {
            Option::Some(v) => v,
            Option::None => Vec::new(),
        };
        self.event_input(initial, Option::None, Option::Some(terminator))
    }
}


} // verus!
