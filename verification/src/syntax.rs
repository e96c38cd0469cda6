use vstd::prelude::*;
use crate::render::{HlSpan, spans_text};

verus! {

#[verifier::external_type_specification]
#[verifier::external_body]
pub struct ExSyntaxSet(syntect::parsing::SyntaxSet);

#[verifier::external_type_specification]
#[verifier::external_body]
pub struct ExSyntaxReference(syntect::parsing::SyntaxReference);

#[verifier::external_type_specification]
#[verifier::external_body]
pub struct ExTheme(syntect::highlighting::Theme);

#[verifier::external_type_specification]
#[verifier::external_body]
pub struct ExHighlightLines<'a>(syntect::easy::HighlightLines<'a>);

/// Whether a grammar set holds the plain-text grammar, the designated
/// fallback of grammar resolution.
pub uninterp spec fn has_plain_text(ss: syntect::parsing::SyntaxSet) -> bool;

/// The grammar that extension lookup finds in a set for a given string,
/// if any: the lookup is a pure function of the set and the string.
pub uninterp spec fn ext_syntax_of(ss: syntect::parsing::SyntaxSet, ext: Seq<char>) -> Option<
    syntect::parsing::SyntaxReference,
>;

/// The plain-text grammar of a set.
pub uninterp spec fn plain_of(ss: syntect::parsing::SyntaxSet) -> syntect::parsing::SyntaxReference;

/// Relies on syntect's SyntaxSet::load_defaults_newlines: loads the
/// grammar set bundled with syntect, which ships the "Plain Text" grammar.
#[verifier::external_body]
pub fn load_default_syntaxes() -> (ss: syntect::parsing::SyntaxSet)
    ensures
        has_plain_text(ss),
{
    syntect::parsing::SyntaxSet::load_defaults_newlines()
}

/// Relies on syntect's ThemeSet::load_defaults: loads the bundled theme
/// set; one theme is taken from it for the whole process lifetime, and an
/// empty theme stands in if the set were empty.
#[verifier::external_body]
pub fn load_default_theme() -> (t: syntect::highlighting::Theme)
{
    let ts = syntect::highlighting::ThemeSet::load_defaults();
    ts.themes.into_values().next().unwrap_or_default()
}

/// Relies on syntect's SyntaxSet::find_syntax_by_extension: looks a
/// string up among the grammars' file extensions, None when no grammar
/// claims it; a pure lookup, so its result bears a name.
#[verifier::external_body]
pub fn find_syntax_by_extension<'a>(
    ss: &'a syntect::parsing::SyntaxSet,
    ext: &str,
) -> (r: Option<&'a syntect::parsing::SyntaxReference>)
    ensures
        match r {
            Option::Some(s) => ext_syntax_of(*ss, ext@) == Option::Some(*s),
            Option::None => ext_syntax_of(*ss, ext@) is None,
        },
{
    ss.find_syntax_by_extension(ext)
}

/// Relies on syntect's SyntaxSet::find_syntax_plain_text: returns the
/// "Plain Text" grammar; it panics only when the set lacks that grammar,
/// which `has_plain_text` rules out.
#[verifier::external_body]
pub fn find_syntax_plain_text<'a>(ss: &'a syntect::parsing::SyntaxSet) -> (r:
    &'a syntect::parsing::SyntaxReference)
    requires
        has_plain_text(*ss),
    ensures
        *r == plain_of(*ss),
{
    ss.find_syntax_plain_text()
}

/// Relies on syntect's HighlightLines::new: a line highlighter that
/// carries parse state from one line of a file to the next.
#[verifier::external_body]
pub fn new_highlighter<'a>(
    syntax: &syntect::parsing::SyntaxReference,
    theme: &'a syntect::highlighting::Theme,
) -> (h: syntect::easy::HighlightLines<'a>)
{
    syntect::easy::HighlightLines::new(syntax, theme)
}

/// Relies on syntect's HighlightLines::highlight_line: its tokens cover
/// the line with no gaps, so their texts concatenate to the given line;
/// each token comes with its theme style's foreground color.
#[verifier::external_body]
pub fn highlight_line<'a>(
    h: &mut syntect::easy::HighlightLines<'a>,
    line: &str,
    ss: &syntect::parsing::SyntaxSet,
) -> (r: Result<Vec<HlSpan>, ()>)
    ensures
        match r {
            Result::Ok(spans) => spans_text(spans@) == line@,
            Result::Err(()) => true,
        },
{
    match h.highlight_line(line, ss) {
        Ok(regions) => Ok(
            regions.into_iter().map(
                |(st, t): (syntect::highlighting::Style, &str)| HlSpan {
                    red: st.foreground.r,
                    green: st.foreground.g,
                    blue: st.foreground.b,
                    text: t.chars().collect(),
                },
            ).collect(),
        ),
        Err(_) => Err(()),
    }
}

/// The position right after the last '.' of a path, or -1 when the path
/// has no '.'.
pub open spec fn last_dot(s: Seq<char>) -> int
    decreases s.len(),
{
    if s.len() == 0 {
        -1
    } else if s.last() == '.' {
        s.len() - 1
    } else {
        last_dot(s.drop_last())
    }
}

/// A file name's extension: what follows its last '.'; empty when it has
/// none, and a leading dot alone (a hidden file) names no extension.
pub open spec fn ext_spec(s: Seq<char>) -> Seq<char> {
    if last_dot(s) <= 0 {
        Seq::empty()
    } else {
        s.skip(last_dot(s) + 1)
    }
}

/// The extension of a file name.
pub fn ext_chars(path: &Vec<char>) -> (r: Vec<char>)
    ensures
        r@ == ext_spec(path@),
{
    let mut found: bool = false;
    let mut idx: usize = 0;
    let mut i: usize = 0;
    while i < path.len()
        invariant
            i <= path@.len(),
            found ==> idx < i && last_dot(path@.take(i as int)) == idx,
            !found ==> last_dot(path@.take(i as int)) == -1,
        decreases path.len() - i,
    {
        proof {
            assert(path@.take(i + 1 as int).drop_last() =~= path@.take(i as int));
            assert(path@.take(i + 1 as int).last() == path@[i as int]);
        }
        if path[i] == '.' {
            found = true;
            idx = i;
        }
        i = i + 1;
    }
    proof {
        assert(path@.take(path@.len() as int) =~= path@);
    }
    let mut r: Vec<char> = Vec::new();
    if found && idx > 0 {
        let mut k: usize = idx + 1;
        while k < path.len()
            invariant
                found,
                last_dot(path@) == idx,
                idx + 1 <= k <= path@.len(),
                r@ == path@.subrange(idx + 1 as int, k as int),
            decreases path.len() - k,
        {
            r.push(path[k]);
            proof {
                assert(r@ =~= path@.subrange(idx + 1 as int, k + 1 as int));
            }
            k = k + 1;
        }
        proof {
            assert(path@.skip(idx + 1 as int) =~= path@.subrange(idx + 1 as int, path@.len() as int));
        }
    }
    r
}

/// The position of the last '/' of a path, or -1 when it has none.
pub open spec fn last_sep(s: Seq<char>) -> int
    decreases s.len(),
{
    if s.len() == 0 {
        -1
    } else if s.last() == '/' {
        s.len() - 1
    } else {
        last_sep(s.drop_last())
    }
}

/// A path's final component: what follows its last '/', or the whole
/// path when it has none.
pub open spec fn base_spec(s: Seq<char>) -> Seq<char> {
    if last_sep(s) < 0 {
        s
    } else {
        s.skip(last_sep(s) + 1)
    }
}

/// The final component of a path.
pub fn base_chars(path: &Vec<char>) -> (r: Vec<char>)
    ensures
        r@ == base_spec(path@),
{
    let mut found: bool = false;
    let mut idx: usize = 0;
    let mut i: usize = 0;
    while i < path.len()
        invariant
            i <= path@.len(),
            found ==> idx < i && last_sep(path@.take(i as int)) == idx,
            !found ==> last_sep(path@.take(i as int)) == -1,
        decreases path.len() - i,
    {
        proof {
            assert(path@.take(i + 1 as int).drop_last() =~= path@.take(i as int));
            assert(path@.take(i + 1 as int).last() == path@[i as int]);
        }
        if path[i] == '/' {
            found = true;
            idx = i;
        }
        i = i + 1;
    }
    proof {
        assert(path@.take(path@.len() as int) =~= path@);
    }
    let start: usize = if found {
        idx + 1
    } else {
        0
    };
    let mut r: Vec<char> = Vec::new();
    let mut k: usize = start;
    while k < path.len()
        invariant
            start <= k <= path@.len(),
            start == (if last_sep(path@) < 0 {
                0int
            } else {
                last_sep(path@) + 1
            }),
            r@ == path@.subrange(start as int, k as int),
        decreases path.len() - k,
    {
        r.push(path[k]);
        proof {
            assert(r@ =~= path@.subrange(start as int, k + 1 as int));
        }
        k = k + 1;
    }
    proof {
        if found {
            assert(path@.skip(idx + 1 as int) =~= path@.subrange(idx + 1 as int, path@.len() as int));
        } else {
            assert(path@.subrange(0, path@.len() as int) =~= path@);
        }
    }
    r
}

/// The grammar that resolution selects for a path: the one whose
/// extensions claim the path's whole file name, else the one claiming
/// the file name's extension, else the plain-text grammar.
pub open spec fn resolved_spec(
    ss: syntect::parsing::SyntaxSet,
    path: Seq<char>,
) -> syntect::parsing::SyntaxReference {
    match ext_syntax_of(ss, base_spec(path)) {
        Option::Some(s) => s,
        Option::None => match ext_syntax_of(ss, ext_spec(base_spec(path))) {
            Option::Some(s) => s,
            Option::None => plain_of(ss),
        },
    }
}


} // verus!
