//! Rewrites of the Markdown source before it is parsed: `<div>` tags put on
//! lines of their own, and inline footnotes `^[...]` turned into ordinary ones.
use vstd::prelude::*;
use vstd::string::*;
use crate::markup::{div_class, extract_div_class};
use crate::text::{
    chars_of, extend_chars, find, find_chars, find_char, find_char_chars, lemma_find_from,
    lines, lines_of, matches_at, starts_with, starts_with_chars, string_of, sub_chars, trim,
    trim_chars,
};

verus! {

broadcast use vstd::string::group_string_axioms;

/// The line at `i` is the last one, or the next one is blank.
pub open spec fn next_is_blank(ls: Seq<Seq<char>>, i: int) -> bool {
    i + 1 >= ls.len() || trim(ls[i + 1]).len() == 0
}

/// What one source line becomes.  A line `<div class="x">text</div>` is split
/// into the opening tag, the text and the closing tag, each followed by a
/// blank line; any other line is kept, and a blank line is added after a
/// `<div class="x">` or `</div>` line that the next line does not leave blank.
pub open spec fn div_piece(ls: Seq<Seq<char>>, i: int) -> Seq<char> {
    let t = trim(ls[i]);
    let gap: Seq<char> = if next_is_blank(ls, i) { seq![] } else { seq!['\n'] };
    let single = if div_class(t) is Some {
        match find_char(t, '>') {
            Some(g) => match find(t.skip(g + 1), "</div>"@) {
                Some(c) => Some((g, c)),
                None => None,
            },
            None => None,
        }
    } else {
        None
    };
    match single {
        Some((g, c)) => {
            let content = trim(t.skip(g + 1).take(c));
            t.take(g + 1) + "\n\n"@ + (if content.len() > 0 { content + "\n\n"@ } else { seq![] })
                + "</div>\n"@ + gap
        },
        None => ls[i] + seq!['\n'] + (if div_class(t) is Some || starts_with(t, "</div>"@) {
            gap
        } else {
            seq![]
        }),
    }
}

/// The pieces of the first `n` lines, one after another.
pub open spec fn div_pieces(ls: Seq<Seq<char>>, n: int) -> Seq<char>
    decreases n,
{
    if n <= 0 {
        seq![]
    } else {
        div_pieces(ls, n - 1) + div_piece(ls, n - 1)
    }
}

/// The source with every `<div>` tag on a line of its own, followed by a blank line.
pub open spec fn spec_preprocess_div_tags(input: Seq<char>) -> Seq<char> {
    div_pieces(lines(input), lines(input).len() as int)
}

fn div_line(ls: &Vec<Vec<char>>, i: usize, out: &mut Vec<char>)
    requires
        i < ls@.len(),
    ensures
        final(out)@ == old(out)@ + div_piece(ls@.map_values(|l: Vec<char>| l@), i as int),
{
    let ghost sl = ls@.map_values(|l: Vec<char>| l@);
    let line = &ls[i];
    let t = trim_chars(line);
    let ts = string_of(&t);
    let is_div = extract_div_class(ts.as_str()).is_some();
    assert(sl[i as int] == line@);
    assert(t@ == trim(sl[i as int]));
    assert(is_div == div_class(t@) is Some);
    let next_blank = i >= ls.len() - 1 || trim_chars(&ls[i + 1]).len() == 0;
    assert(next_blank == next_is_blank(sl, i as int));
    let ghost gap: Seq<char> = if next_is_blank(sl, i as int) { seq![] } else { seq!['\n'] };
    if is_div {
        match find_char_chars(&t, '>') {
            Some(g) => {
                proof {
                    lemma_find_from(t@, seq!['>'], 0);
                    assert(matches_at(t@, seq!['>'], g as int));
                }
                assert(g < t.len());
                let after = sub_chars(&t, g + 1, t.len());
                assert(after@ =~= t@.skip(g + 1));
                let close = chars_of("</div>");
                match find_chars(&after, &close) {
                    Some(c) => {
                        proof {
                            lemma_find_from(after@, close@, 0);
                        }
                        let opening = sub_chars(&t, 0, g + 1);
                        assert(opening@ =~= t@.take(g + 1));
                        let inner = sub_chars(&after, 0, c);
                        assert(inner@ =~= after@.take(c as int));
                        let content = trim_chars(&inner);
                        let ghost o0 = out@;
                        let ghost mid: Seq<char> = if content@.len() > 0 {
                            content@ + "\n\n"@
                        } else {
                            seq![]
                        };
                        assert(find_char(t@, '>') == Some(g as int));
                        assert(find(t@.skip(g + 1), "</div>"@) == Some(c as int));
                        assert(div_piece(sl, i as int) == opening@ + "\n\n"@ + mid + "</div>\n"@
                            + gap);
                        extend_chars(out, &opening);
                        out.push('\n');
                        out.push('\n');
                        proof {
                            reveal_strlit("\n\n");
                        }
                        assert(out@ =~= o0 + opening@ + "\n\n"@);
                        if content.len() > 0 {
                            extend_chars(out, &content);
                            out.push('\n');
                            out.push('\n');
                        }
                        assert(out@ =~= o0 + opening@ + "\n\n"@ + mid);
                        let tail = chars_of("</div>\n");
                        extend_chars(out, &tail);
                        if !next_blank {
                            out.push('\n');
                        }
                        assert(out@ =~= o0 + div_piece(sl, i as int));
                        return ;
                    },
                    None => {},
                }
            },
            None => {},
        }
    }
    let ghost o0 = out@;
    extend_chars(out, line);
    out.push('\n');
    let close = chars_of("</div>");
    if is_div || starts_with_chars(&t, &close) {
        if !next_blank {
            out.push('\n');
        }
    }
    assert(out@ =~= o0 + div_piece(sl, i as int));
}

/// Puts `<div class="...">` and `</div>` tags on lines of their own with a
/// blank line after each, so that the Markdown parser sees them as separate
/// HTML blocks.
pub fn preprocess_div_tags(input: &str) -> (r: String)
    ensures
        r@ == spec_preprocess_div_tags(input@),
{
    let c = chars_of(input);
    let ls = lines_of(&c);
    let ghost sl = ls@.map_values(|l: Vec<char>| l@);
    assert(sl =~= lines(input@));
    let mut out: Vec<char> = Vec::new();
    let mut i: usize = 0;
    while i < ls.len()
        invariant
            i <= ls@.len(),
            sl == ls@.map_values(|l: Vec<char>| l@),
            out@ == div_pieces(sl, i as int),
        decreases ls.len() - i,
    {
        div_line(&ls, i, &mut out);
        i = i + 1;
    }
    string_of(&out)
}

} // verus!
