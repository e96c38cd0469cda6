use vstd::prelude::*;
use crate::escape::{esc_char_spec, esc_line_spec};

verus! {

/// The visible cursor marker emitted at the cursor's column.
pub const CURSOR_MARK: char = '|';

/// The separator emitted between a line number and the line's content.
pub const NUMBER_SEP: char = '|';

/// A run of characters printed in one foreground color; `None` is the
/// terminal's default color, `Some(i)` the ANSI palette entry `i`.
pub struct Segment {
    pub color: Option<u8>,
    pub text: Vec<char>,
}

/// Well-formed segments name only existing palette entries.
pub open spec fn segs_wf(segs: Seq<Segment>) -> bool {
    forall|i: int|
        0 <= i < segs.len() ==> match #[trigger] segs[i].color {
            Option::Some(c) => c < 16,
            Option::None => true,
        }
}

/// The text of a run of segments, colors forgotten.
pub open spec fn seg_text(segs: Seq<Segment>) -> Seq<char>
    decreases segs.len(),
{
    if segs.len() == 0 {
        Seq::empty()
    } else {
        seg_text(segs.drop_last()) + segs.last().text@
    }
}

pub proof fn lemma_seg_text_push(s: Seq<Segment>, x: Segment)
    ensures
        seg_text(s.push(x)) == seg_text(s) + x.text@,
{
    assert(s.push(x).drop_last() =~= s);
    assert(s.push(x).last() == x);
}

/// How one line's characters read once rendered: escaped in literal mode,
/// unchanged otherwise.
pub open spec fn rend_spec(s: Seq<char>, literal: bool) -> Seq<char> {
    if literal {
        esc_line_spec(s)
    } else {
        s
    }
}

proof fn lemma_rend_step(s: Seq<char>, literal: bool, a: int, b: int)
    requires
        0 <= a <= b < s.len(),
    ensures
        rend_spec(s.subrange(a, b + 1), literal) == rend_spec(s.subrange(a, b), literal) + (
        if literal {
            esc_char_spec(s[b])
        } else {
            seq![s[b]]
        }),
{
    assert(s.subrange(a, b + 1).drop_last() =~= s.subrange(a, b));
    assert(s.subrange(a, b + 1).last() == s[b]);
    if !literal {
        assert(s.subrange(a, b + 1) =~= s.subrange(a, b) + seq![s[b]]);
    }
}

/// A line's rendered content, with the cursor marker inserted at the
/// cursor's column when the cursor falls on this line.
pub open spec fn content_spec(orig: Seq<char>, literal: bool, cursor: Option<usize>) -> Seq<char> {
    match cursor {
        Option::Some(c) => rend_spec(orig.take(c as int), literal) + seq![CURSOR_MARK] + rend_spec(
            orig.skip(c as int),
            literal,
        ),
        Option::None => rend_spec(orig, literal),
    }
}

/// The rendered content seen after the first `k` characters of the line
/// have been processed.
spec fn partial_content(orig: Seq<char>, literal: bool, cursor: Option<usize>, k: int) -> Seq<
    char,
> {
    match cursor {
        Option::Some(c) => if k <= c {
            rend_spec(orig.take(k), literal)
        } else {
            rend_spec(orig.take(c as int), literal) + seq![CURSOR_MARK] + rend_spec(
                orig.subrange(c as int, k),
                literal,
            )
        },
        Option::None => rend_spec(orig.take(k), literal),
    }
}

/// Renders one line's characters into colored segments, appending to
/// `segs`: each character keeps the terminal color assigned to it, except
/// that in literal mode a control character becomes its caret escape in
/// the default color, and the cursor marker is inserted at the cursor
/// column in the default color.
pub fn render_content(
    segs: &mut Vec<Segment>,
    chars: &Vec<char>,
    colors: &Vec<u8>,
    literal: bool,
    cursor: Option<usize>,
) -> (nothing: ())
    requires
        colors@.len() == chars@.len(),
        forall|i: int| 0 <= i < colors@.len() ==> colors@[i] < 16,
        match cursor {
            Option::Some(c) => c <= chars@.len(),
            Option::None => true,
        },
        segs_wf(old(segs)@),
    ensures
        seg_text(final(segs)@) == seg_text(old(segs)@) + content_spec(chars@, literal, cursor),
        segs_wf(final(segs)@),
{
    let ghost base = seg_text(old(segs)@);
    let mut i: usize = 0;
    while i < chars.len()
        invariant
            colors@.len() == chars@.len(),
            forall|j: int| 0 <= j < colors@.len() ==> colors@[j] < 16,
            match cursor {
                Option::Some(c) => c <= chars@.len(),
                Option::None => true,
            },
            i <= chars@.len(),
            seg_text(segs@) == base + partial_content(chars@, literal, cursor, i as int),
            segs_wf(segs@),
        decreases chars@.len() - i,
    {
        let at_cursor = match cursor {
            Option::Some(c) => c == i,
            Option::None => false,
        };
        if at_cursor {
            let ghost before = segs@;
            let mut mtext: Vec<char> = Vec::new();
            mtext.push(CURSOR_MARK);
            segs.push(Segment { color: Option::None, text: mtext });
            proof {
                lemma_seg_text_push(before, segs@.last());
                assert(chars@.subrange(i as int, i as int) =~= Seq::<char>::empty());
            }
        }
        let c = chars[i];
        let ghost before = segs@;
        if literal && ((c as u32) < 32 || c as u32 == 127) {
            let mut etext: Vec<char> = Vec::new();
            etext.push('^');
            etext.push(crate::escape::caret_letter(c));
            segs.push(Segment { color: Option::None, text: etext });
        } else {
            let mut ctext: Vec<char> = Vec::new();
            ctext.push(c);
            segs.push(Segment { color: Option::Some(colors[i]), text: ctext });
        }
        proof {
            lemma_seg_text_push(before, segs@.last());
            if i < chars@.len() {
                lemma_rend_step(chars@, literal, 0, i as int);
                assert(chars@.take(i as int) =~= chars@.subrange(0, i as int));
                match cursor {
                    Option::Some(cc) => {
                        if i > cc {
                            lemma_rend_step(chars@, literal, cc as int, i as int);
                        } else if i == cc {
                            lemma_rend_step(chars@, literal, cc as int, i as int);
                        }
                    },
                    Option::None => {},
                }
            }
            assert(seg_text(segs@) =~= base + partial_content(
                chars@,
                literal,
                cursor,
                i + 1 as int,
            ));
        }
        i = i + 1;
    }
    let at_end = match cursor {
        Option::Some(c) => c == chars.len(),
        Option::None => false,
    };
    if at_end {
        let ghost before = segs@;
        let mut mtext: Vec<char> = Vec::new();
        mtext.push(CURSOR_MARK);
        segs.push(Segment { color: Option::None, text: mtext });
        proof {
            lemma_seg_text_push(before, segs@.last());
            assert(chars@.subrange(chars@.len() as int, chars@.len() as int) =~= Seq::<
                char,
            >::empty());
        }
    }
    proof {
        assert(chars@.take(chars@.len() as int) =~= chars@);
        match cursor {
            Option::Some(c) => {
                assert(chars@.skip(c as int) =~= chars@.subrange(c as int, chars@.len() as int));
            },
            Option::None => {},
        }
        assert(seg_text(segs@) =~= base + content_spec(chars@, literal, cursor));
    }
}

/// The character of one decimal digit.
pub open spec fn digit_char_spec(d: int) -> char {
    if d == 0 { '0' }
    else if d == 1 { '1' }
    else if d == 2 { '2' }
    else if d == 3 { '3' }
    else if d == 4 { '4' }
    else if d == 5 { '5' }
    else if d == 6 { '6' }
    else if d == 7 { '7' }
    else if d == 8 { '8' }
    else { '9' }
}

/// The decimal digits of a number, most significant first.
pub open spec fn dec_spec(n: nat) -> Seq<char>
    decreases n,
{
    if n < 10 {
        seq![digit_char_spec(n as int)]
    } else {
        dec_spec(n / 10) + seq![digit_char_spec((n % 10) as int)]
    }
}

fn digit_char(d: usize) -> (c: char)
    requires
        d < 10,
    ensures
        c == digit_char_spec(d as int),
{
    if d == 0 { '0' }
    else if d == 1 { '1' }
    else if d == 2 { '2' }
    else if d == 3 { '3' }
    else if d == 4 { '4' }
    else if d == 5 { '5' }
    else if d == 6 { '6' }
    else if d == 7 { '7' }
    else if d == 8 { '8' }
    else { '9' }
}

/// The decimal digits of a number as characters.
pub fn dec_chars(n: usize) -> (r: Vec<char>)
    ensures
        r@ == dec_spec(n as nat),
    decreases n,
{
    if n < 10 {
        let mut v: Vec<char> = Vec::new();
        v.push(digit_char(n));
        proof {
            assert(v@ =~= dec_spec(n as nat));
        }
        v
    } else {
        let mut v = dec_chars(n / 10);
        v.push(digit_char(n % 10));
        proof {
            assert(v@ =~= dec_spec(n as nat));
        }
        v
    }
}

/// A run of spaces.
pub open spec fn spaces_spec(n: int) -> Seq<char>
    decreases n,
{
    if n <= 0 {
        Seq::empty()
    } else {
        spaces_spec(n - 1) + seq![' ']
    }
}

/// Text right-aligned in a cell of the given width: spaces first, then the
/// text; text wider than the cell is kept whole.
pub open spec fn pad_spec(s: Seq<char>, w: int) -> Seq<char> {
    if s.len() >= w {
        s
    } else {
        spaces_spec(w - s.len()) + s
    }
}

/// Right-aligns characters in a cell of the given width.
pub fn pad_left(v: Vec<char>, w: usize) -> (r: Vec<char>)
    ensures
        r@ == pad_spec(v@, w as int),
{
    if v.len() >= w {
        v
    } else {
        let pad = w - v.len();
        let mut r: Vec<char> = Vec::new();
        let mut i: usize = 0;
        while i < pad
            invariant
                i <= pad,
                r@ == spaces_spec(i as int),
            decreases pad - i,
        {
            r.push(' ');
            i = i + 1;
        }
        let mut k: usize = 0;
        while k < v.len()
            invariant
                k <= v@.len(),
                r@ == spaces_spec(pad as int) + v@.subrange(0, k as int),
            decreases v.len() - k,
        {
            r.push(v[k]);
            proof {
                assert(r@ =~= spaces_spec(pad as int) + v@.subrange(0, k + 1 as int));
            }
            k = k + 1;
        }
        proof {
            assert(v@.subrange(0, v@.len() as int) =~= v@);
        }
        r
    }
}

/// The numbering cell before a numbered line: the right-aligned line
/// number and a separator.
pub open spec fn number_cell_spec(n: nat, w: int) -> Seq<char> {
    pad_spec(dec_spec(n), w) + seq![NUMBER_SEP]
}

/// Everything one rendered line reads as: the numbering cell when
/// numbering is on, then the prefix character when one is given, then the
/// line's content with escapes and the cursor marker.
pub open spec fn line_text_spec(
    orig: Seq<char>,
    literal: bool,
    cursor: Option<usize>,
    numbered: bool,
    n: nat,
    w: int,
    prefix: Option<char>,
) -> Seq<char> {
    (if numbered {
        number_cell_spec(n, w)
    } else {
        Seq::empty()
    }) + (match prefix {
        Option::Some(p) => seq![p],
        Option::None => Seq::empty(),
    }) + content_spec(orig, literal, cursor)
}

/// Renders one line into colored segments: numbering cell, prefix
/// character, then the content.
pub fn render_line(
    chars: &Vec<char>,
    colors: &Vec<u8>,
    literal: bool,
    cursor: Option<usize>,
    numbered: bool,
    num: usize,
    width: usize,
    prefix: Option<char>,
) -> (segs: Vec<Segment>)
    requires
        colors@.len() == chars@.len(),
        forall|i: int| 0 <= i < colors@.len() ==> colors@[i] < 16,
        match cursor {
            Option::Some(c) => c <= chars@.len(),
            Option::None => true,
        },
    ensures
        seg_text(segs@) == line_text_spec(
            chars@,
            literal,
            cursor,
            numbered,
            num as nat,
            width as int,
            prefix,
        ),
        segs_wf(segs@),
{
    let mut segs: Vec<Segment> = Vec::new();
    if numbered {
        let mut cell = pad_left(dec_chars(num), width);
        cell.push(NUMBER_SEP);
        let ghost before = segs@;
        segs.push(Segment { color: Option::None, text: cell });
        proof {
            lemma_seg_text_push(before, segs@.last());
        }
    }
    match prefix {
        Option::Some(p) => {
            let mut ptext: Vec<char> = Vec::new();
            ptext.push(p);
            let ghost before = segs@;
            segs.push(Segment { color: Option::None, text: ptext });
            proof {
                lemma_seg_text_push(before, segs@.last());
            }
        },
        Option::None => {},
    }
    render_content(&mut segs, chars, colors, literal, cursor);
    proof {
        assert(seg_text(segs@) =~= line_text_spec(
            chars@,
            literal,
            cursor,
            numbered,
            num as nat,
            width as int,
            prefix,
        ));
    }
    segs
}

/// In literal mode a line's rendered content never holds a control
/// character, whatever the line and wherever the cursor stands: what goes
/// to the terminal is safe to write raw.
pub proof fn lemma_literal_content_no_ctrl(orig: Seq<char>, cursor: Option<usize>)
    ensures
        forall|i: int|
            0 <= i < content_spec(orig, true, cursor).len() ==> !crate::escape::is_ctrl(
                #[trigger] content_spec(orig, true, cursor)[i],
            ),
{
    match cursor {
        Option::Some(c) => {
            crate::escape::lemma_esc_line_no_ctrl(orig.take(c as int));
            crate::escape::lemma_esc_line_no_ctrl(orig.skip(c as int));
            let a = esc_line_spec(orig.take(c as int));
            let m = seq![CURSOR_MARK];
            let b = esc_line_spec(orig.skip(c as int));
            assert forall|i: int| 0 <= i < content_spec(orig, true, cursor).len() implies !crate::escape::is_ctrl(
                #[trigger] content_spec(orig, true, cursor)[i],
            ) by {
                if i < a.len() {
                    assert(content_spec(orig, true, cursor)[i] == a[i]);
                } else if i == a.len() {
                    assert(content_spec(orig, true, cursor)[i] == CURSOR_MARK);
                } else {
                    assert(content_spec(orig, true, cursor)[i] == b[i - a.len() - 1]);
                }
            }
        },
        Option::None => {
            crate::escape::lemma_esc_line_no_ctrl(orig);
        },
    }
}


proof fn lemma_dec_no_ctrl(n: nat)
    ensures
        forall|i: int| 0 <= i < dec_spec(n).len() ==> !crate::escape::is_ctrl(#[trigger] dec_spec(n)[i]),
    decreases n,
{
    if n >= 10 {
        lemma_dec_no_ctrl(n / 10);
        let head = dec_spec(n / 10);
        assert forall|i: int| 0 <= i < dec_spec(n).len() implies !crate::escape::is_ctrl(
            #[trigger] dec_spec(n)[i],
        ) by {
            if i < head.len() {
                assert(dec_spec(n)[i] == head[i]);
            } else {
                assert(dec_spec(n)[i] == digit_char_spec((n % 10) as int));
            }
        }
    }
}

proof fn lemma_spaces_no_ctrl(n: int)
    ensures
        forall|i: int| 0 <= i < spaces_spec(n).len() ==> !crate::escape::is_ctrl(
            #[trigger] spaces_spec(n)[i],
        ),
    decreases n,
{
    if n > 0 {
        lemma_spaces_no_ctrl(n - 1);
        let head = spaces_spec(n - 1);
        assert forall|i: int| 0 <= i < spaces_spec(n).len() implies !crate::escape::is_ctrl(
            #[trigger] spaces_spec(n)[i],
        ) by {
            if i < head.len() {
                assert(spaces_spec(n)[i] == head[i]);
            } else {
                assert(spaces_spec(n)[i] == ' ');
            }
        }
    }
}

/// In literal mode a whole rendered line - numbering cell, prefix and
/// content - never holds a control character, for every line, cursor
/// position, line number and width, whenever the prefix character itself
/// is not a control character: nothing printed in literal mode can reach
/// the terminal as a raw control byte.
pub proof fn lemma_literal_line_no_ctrl(
    orig: Seq<char>,
    cursor: Option<usize>,
    numbered: bool,
    n: nat,
    w: int,
    prefix: Option<char>,
)
    requires
        match prefix {
            Option::Some(p) => !crate::escape::is_ctrl(p),
            Option::None => true,
        },
    ensures
        forall|i: int|
            0 <= i < line_text_spec(orig, true, cursor, numbered, n, w, prefix).len()
                ==> !crate::escape::is_ctrl(
                #[trigger] line_text_spec(orig, true, cursor, numbered, n, w, prefix)[i],
            ),
{
    lemma_literal_content_no_ctrl(orig, cursor);
    lemma_dec_no_ctrl(n);
    lemma_spaces_no_ctrl(w - dec_spec(n).len());
    let cell = if numbered {
        number_cell_spec(n, w)
    } else {
        Seq::<char>::empty()
    };
    let pfx = match prefix {
        Option::Some(p) => seq![p],
        Option::None => Seq::<char>::empty(),
    };
    let content = content_spec(orig, true, cursor);
    let whole = line_text_spec(orig, true, cursor, numbered, n, w, prefix);
    assert forall|i: int| 0 <= i < whole.len() implies !crate::escape::is_ctrl(
        #[trigger] whole[i],
    ) by {
        if i < cell.len() {
            assert(whole[i] == cell[i]);
            if numbered {
                let padded = pad_spec(dec_spec(n), w);
                if i < padded.len() {
                    assert(cell[i] == padded[i]);
                    if dec_spec(n).len() >= w {
                        assert(padded[i] == dec_spec(n)[i]);
                    } else {
                        let sp = spaces_spec(w - dec_spec(n).len());
                        if i < sp.len() {
                            assert(padded[i] == sp[i]);
                        } else {
                            assert(padded[i] == dec_spec(n)[i - sp.len()]);
                        }
                    }
                } else {
                    assert(cell[i] == NUMBER_SEP);
                }
            }
        } else if i < cell.len() + pfx.len() {
            assert(whole[i] == pfx[i - cell.len()]);
        } else {
            assert(whole[i] == content[i - cell.len() - pfx.len()]);
        }
    }
}

/// One highlighted token of a line: the theme's foreground color and the
/// token's text.
pub struct HlSpan {
    pub red: u8,
    pub green: u8,
    pub blue: u8,
    pub text: Vec<char>,
}

/// The text of a line as the concatenation of its highlighted tokens.
pub open spec fn spans_text(spans: Seq<HlSpan>) -> Seq<char>
    decreases spans.len(),
{
    if spans.len() == 0 {
        Seq::empty()
    } else {
        spans_text(spans.drop_last()) + spans.last().text@
    }
}

proof fn lemma_spans_text_take(spans: Seq<HlSpan>, i: int)
    requires
        0 <= i < spans.len(),
    ensures
        spans_text(spans.take(i + 1)) == spans_text(spans.take(i)) + spans[i].text@,
{
    assert(spans.take(i + 1).drop_last() =~= spans.take(i));
    assert(spans.take(i + 1).last() == spans[i]);
}

/// Flattens a line's highlighted tokens into its characters and, for each
/// character, the quantized terminal color of its token.
pub fn flatten_spans(spans: &Vec<HlSpan>) -> (r: (Vec<char>, Vec<u8>))
    ensures
        r.0@ == spans_text(spans@),
        r.1@.len() == r.0@.len(),
        forall|i: int| 0 <= i < r.1@.len() ==> r.1@[i] < 16,
{
    let mut chars: Vec<char> = Vec::new();
    let mut colors: Vec<u8> = Vec::new();
    let mut i: usize = 0;
    while i < spans.len()
        invariant
            i <= spans@.len(),
            chars@ == spans_text(spans@.take(i as int)),
            colors@.len() == chars@.len(),
            forall|j: int| 0 <= j < colors@.len() ==> colors@[j] < 16,
        decreases spans.len() - i,
    {
        let sp = &spans[i];
        let col = crate::color::nearest_color(sp.red, sp.green, sp.blue);
        let mut k: usize = 0;
        while k < sp.text.len()
            invariant
                i < spans@.len(),
                sp == spans@[i as int],
                col < 16,
                k <= sp.text@.len(),
                chars@ == spans_text(spans@.take(i as int)) + sp.text@.subrange(0, k as int),
                colors@.len() == chars@.len(),
                forall|j: int| 0 <= j < colors@.len() ==> colors@[j] < 16,
            decreases sp.text.len() - k,
        {
            chars.push(sp.text[k]);
            colors.push(col);
            proof {
                assert(chars@ =~= spans_text(spans@.take(i as int)) + sp.text@.subrange(
                    0,
                    k + 1 as int,
                ));
            }
            k = k + 1;
        }
        proof {
            lemma_spans_text_take(spans@, i as int);
            assert(sp.text@.subrange(0, sp.text@.len() as int) =~= sp.text@);
            assert(chars@ =~= spans_text(spans@.take(i + 1 as int)));
        }
        i = i + 1;
    }
    proof {
        assert(spans@.take(spans@.len() as int) =~= spans@);
    }
    (chars, colors)
}


} // verus!
