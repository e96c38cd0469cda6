use vstd::prelude::*;

verus! {

/// A control character: one that a terminal would interpret rather than
/// display (C0 controls and delete).
pub open spec fn is_ctrl(c: char) -> bool {
    (c as u32) < 32 || c as u32 == 127
}

/// The letter of the caret notation for a control character: control
/// value n is written `^` followed by the character for n + 64, and
/// delete is written `^?`.
pub open spec fn caret_letter_spec(c: char) -> char {
    if c == '\x00' { '@' }
    else if c == '\x01' { 'A' }
    else if c == '\x02' { 'B' }
    else if c == '\x03' { 'C' }
    else if c == '\x04' { 'D' }
    else if c == '\x05' { 'E' }
    else if c == '\x06' { 'F' }
    else if c == '\x07' { 'G' }
    else if c == '\x08' { 'H' }
    else if c == '\x09' { 'I' }
    else if c == '\x0a' { 'J' }
    else if c == '\x0b' { 'K' }
    else if c == '\x0c' { 'L' }
    else if c == '\x0d' { 'M' }
    else if c == '\x0e' { 'N' }
    else if c == '\x0f' { 'O' }
    else if c == '\x10' { 'P' }
    else if c == '\x11' { 'Q' }
    else if c == '\x12' { 'R' }
    else if c == '\x13' { 'S' }
    else if c == '\x14' { 'T' }
    else if c == '\x15' { 'U' }
    else if c == '\x16' { 'V' }
    else if c == '\x17' { 'W' }
    else if c == '\x18' { 'X' }
    else if c == '\x19' { 'Y' }
    else if c == '\x1a' { 'Z' }
    else if c == '\x1b' { '[' }
    else if c == '\x1c' { '\\' }
    else if c == '\x1d' { ']' }
    else if c == '\x1e' { '^' }
    else if c == '\x1f' { '_' }
    else { '?' }
}

pub fn caret_letter(c: char) -> (r: char)
    ensures
        r == caret_letter_spec(c),
{
    if c == '\x00' { '@' }
    else if c == '\x01' { 'A' }
    else if c == '\x02' { 'B' }
    else if c == '\x03' { 'C' }
    else if c == '\x04' { 'D' }
    else if c == '\x05' { 'E' }
    else if c == '\x06' { 'F' }
    else if c == '\x07' { 'G' }
    else if c == '\x08' { 'H' }
    else if c == '\x09' { 'I' }
    else if c == '\x0a' { 'J' }
    else if c == '\x0b' { 'K' }
    else if c == '\x0c' { 'L' }
    else if c == '\x0d' { 'M' }
    else if c == '\x0e' { 'N' }
    else if c == '\x0f' { 'O' }
    else if c == '\x10' { 'P' }
    else if c == '\x11' { 'Q' }
    else if c == '\x12' { 'R' }
    else if c == '\x13' { 'S' }
    else if c == '\x14' { 'T' }
    else if c == '\x15' { 'U' }
    else if c == '\x16' { 'V' }
    else if c == '\x17' { 'W' }
    else if c == '\x18' { 'X' }
    else if c == '\x19' { 'Y' }
    else if c == '\x1a' { 'Z' }
    else if c == '\x1b' { '[' }
    else if c == '\x1c' { '\\' }
    else if c == '\x1d' { ']' }
    else if c == '\x1e' { '^' }
    else if c == '\x1f' { '_' }
    else { '?' }
}

/// What one character becomes in literal (escaped) rendering: control
/// characters become their two-character caret escape, every other
/// character stands for itself.
pub open spec fn esc_char_spec(c: char) -> Seq<char> {
    if is_ctrl(c) {
        seq!['^', caret_letter_spec(c)]
    } else {
        seq![c]
    }
}

/// What a whole line becomes in literal (escaped) rendering.
pub open spec fn esc_line_spec(s: Seq<char>) -> Seq<char>
    decreases s.len(),
{
    if s.len() == 0 {
        Seq::empty()
    } else {
        esc_line_spec(s.drop_last()) + esc_char_spec(s.last())
    }
}

/// The escape of one character never holds a control character.
proof fn lemma_esc_char_no_ctrl(c: char)
    ensures
        forall|i: int| 0 <= i < esc_char_spec(c).len() ==> !is_ctrl(#[trigger] esc_char_spec(c)[i]),
{
}

/// No character of an escaped line is a control character: literal-mode
/// content can be written to a raw terminal byte for byte.
pub proof fn lemma_esc_line_no_ctrl(s: Seq<char>)
    ensures
        forall|i: int| 0 <= i < esc_line_spec(s).len() ==> !is_ctrl(#[trigger] esc_line_spec(s)[i]),
    decreases s.len(),
{
    if s.len() > 0 {
        lemma_esc_line_no_ctrl(s.drop_last());
        lemma_esc_char_no_ctrl(s.last());
        let head = esc_line_spec(s.drop_last());
        let tail = esc_char_spec(s.last());
        assert forall|i: int| 0 <= i < esc_line_spec(s).len() implies !is_ctrl(
            #[trigger] esc_line_spec(s)[i],
        ) by {
            if i < head.len() {
                assert(esc_line_spec(s)[i] == head[i]);
            } else {
                assert(esc_line_spec(s)[i] == tail[i - head.len()]);
            }
        }
    }
}

/// Renders the characters of one line in literal (escaped) form.
pub fn escape_chars(line: &Vec<char>) -> (r: Vec<char>)
    ensures
        r@ == esc_line_spec(line@),
{
    let mut r: Vec<char> = Vec::new();
    let mut i: usize = 0;
    while i < line.len()
        invariant
            i <= line.len(),
            r@ == esc_line_spec(line@.subrange(0, i as int)),
        decreases line.len() - i,
    {
        let c = line[i];
        if (c as u32) < 32 || c as u32 == 127 {
            r.push('^');
            r.push(caret_letter(c));
        } else {
            r.push(c);
        }
        proof {
            let pre = line@.subrange(0, i as int);
            let cur = line@.subrange(0, i + 1 as int);
            assert(cur.drop_last() =~= pre);
            assert(cur.last() == c);
            assert(r@ =~= esc_line_spec(cur));
        }
        i = i + 1;
    }
    proof {
        assert(line@.subrange(0, line@.len() as int) =~= line@);
    }
    r
}

} // verus!
