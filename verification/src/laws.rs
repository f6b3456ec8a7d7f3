//! Properties of the library that hold for all inputs.
use vstd::prelude::*;
use crate::config::PageConfig;
use crate::runs::{RunPieceV, runs_of, runs_of_seq};
use crate::markup::{
    block_ok, blocks_ok, inline_ok, inlines_ok, lemma_blocks_ok, lemma_inlines_ok,
    page_break_directive, tag_class, text_ok,
};
use crate::events::{
    ConvState, MdEventV, MdTagEnd, MdTagV, TableV, conv_add_block, conv_end, conv_event,
    conv_events, conv_html_line, conv_inline_html, conv_pop_inlines, conv_push_inline,
    conv_push_inlines, lemma_events_push,
};
use crate::ir::ColumnAlignment;
use crate::ir::{BlockV, InlineV};
use crate::layout::{dropped_space, kept_chars, spec_is_japanese_char, spec_process_text};
use crate::preprocess::{div_pieces, div_piece, next_is_blank, spec_preprocess_div_tags};
use crate::markup::{div_class, span_class};
use crate::text::{
    contains, ends_with, find, find_char, find_from, is_ws, lines, matches_at, starts_with, trim, trim_end,
    trim_start,
};
use crate::footnotes::{
    NoteScan, after_fence, fence_here, note_init, note_run, note_step, run_end,
    spec_preprocess_inline_footnotes, note_defs,
};
use crate::layout::{
    CaptionNumbers, EMU_PER_PIXEL, EMU_PER_TWIP, HeadingLayout, chapter_started, figure_counted,
    figure_label, spec_body_width, spec_column_width, spec_fit_image, spec_grid_total,
    spec_heading_layout, spec_is_ascii_char, table_counted, table_label,
};
use crate::text::decimal;

verus! {

/// A fitted image is never wider than the text body, never larger than its
/// own pixel size, and never taller than the configured height limit.
pub proof fn law_fitted_image_stays_within_limits(wpx: u32, hpx: u32, page: PageConfig)
    ensures
        spec_fit_image(wpx as int, hpx as int, page).0 <= spec_body_width(page) * EMU_PER_TWIP,
        spec_fit_image(wpx as int, hpx as int, page).0 <= wpx * EMU_PER_PIXEL,
        spec_fit_image(wpx as int, hpx as int, page).1 <= hpx * EMU_PER_PIXEL,
        page.image_max_height matches Some(mh) ==> spec_fit_image(wpx as int, hpx as int, page).1
            <= mh * EMU_PER_TWIP,
{
    let we = wpx * EMU_PER_PIXEL;
    let he = hpx * EMU_PER_PIXEL;
    let maxw = spec_body_width(page) * EMU_PER_TWIP;
    assert(spec_body_width(page) >= 0);
    if we > maxw {
        assert(he * maxw / we <= he) by (nonlinear_arith)
            requires
                0 <= maxw < we,
                0 <= he,
        ;
    }
    let (w, h) = if we > maxw {
        (maxw, he * maxw / we)
    } else {
        (we, he)
    };
    assert(0 <= w && 0 <= h) by (nonlinear_arith)
        requires
            w == (if we > maxw {
                maxw
            } else {
                we
            }),
            h == (if we > maxw {
                he * maxw / we
            } else {
                he
            }),
            0 <= maxw,
            0 <= we,
            0 <= he,
    ;
    match page.image_max_height {
        Some(mh) => {
            let mhe = mh * EMU_PER_TWIP;
            if h > mhe {
                assert(w * mhe / h <= w) by (nonlinear_arith)
                    requires
                        0 <= mhe < h,
                        0 <= w,
                ;
            }
        },
        None => {},
    }
}

/// An image that fits the body width and the height limit keeps its size.
pub proof fn law_small_image_keeps_its_size(wpx: u32, hpx: u32, page: PageConfig)
    requires
        wpx * EMU_PER_PIXEL <= spec_body_width(page) * EMU_PER_TWIP,
        page.image_max_height matches Some(mh) ==> hpx * EMU_PER_PIXEL <= mh * EMU_PER_TWIP,
    ensures
        spec_fit_image(wpx as int, hpx as int, page) == (
            wpx * EMU_PER_PIXEL,
            hpx * EMU_PER_PIXEL,
        ),
{
}

/// The sum of the widths of the first `k` columns.
pub open spec fn grid_sum(total: int, n: int, k: int) -> int
    decreases k,
{
    if k <= 0 {
        0
    } else {
        grid_sum(total, n, k - 1) + spec_column_width(total, n, k - 1)
    }
}

/// The columns of a table share the whole width: their widths add up to it,
/// and each is the even share or one twip more.
pub proof fn law_table_columns_fill_the_width(total: int, n: int)
    requires
        0 <= total,
        0 < n,
    ensures
        grid_sum(total, n, n) == total,
        forall|i: int|
            0 <= i < n ==> #[trigger] spec_column_width(total, n, i) == total / n
                || spec_column_width(total, n, i) == total / n + 1,
{
    let q = total / n;
    let r = total % n;
    assert(0 <= r < n && total == q * n + r) by (nonlinear_arith)
        requires
            0 < n,
            q == total / n,
            r == total % n,
    ;
    lemma_grid_sum(total, n, n);
}

proof fn lemma_grid_sum(total: int, n: int, k: int)
    requires
        0 <= total,
        0 < n,
        0 <= k <= n,
    ensures
        grid_sum(total, n, k) == (total / n) * k + if k < total % n {
            k
        } else {
            total % n
        },
    decreases k,
{
    let q = total / n;
    let r = total % n;
    assert(0 <= r < n) by (nonlinear_arith)
        requires
            0 < n,
            r == total % n,
    ;
    if k > 0 {
        lemma_grid_sum(total, n, k - 1);
        assert(q * k == q * (k - 1) + q) by (nonlinear_arith);
    } else {
        assert(q * k == 0) by (nonlinear_arith)
            requires
                k == 0,
        ;
    }
}

/// Only an H1 (an H2 when H1 is the title) starts a chapter, and it is the
/// first numbering level: lower levels never reset figure and table numbers.
pub proof fn law_only_top_headings_start_chapters(
    h1_title: bool,
    numbering: bool,
    depth: u8,
    level: u8,
)
    ensures
        spec_heading_layout(h1_title, numbering, depth, level).starts_chapter ==> (
        spec_heading_layout(h1_title, numbering, depth, level).effective_level == 1
            && spec_heading_layout(h1_title, numbering, depth, level).numbered),
        level > 2 ==> !spec_heading_layout(h1_title, numbering, depth, level).starts_chapter,
{
}

/// With H1 as the title, the H1 is not numbered and every other level moves
/// up one; without, the levels stay.
pub proof fn law_h1_title_shifts_levels(numbering: bool, depth: u8, level: u8)
    ensures
        spec_heading_layout(true, numbering, depth, 1).is_title,
        !spec_heading_layout(true, numbering, depth, 1).numbered,
        level > 1 ==> spec_heading_layout(true, numbering, depth, level).effective_level == level
            - 1,
        spec_heading_layout(false, numbering, depth, level).effective_level == level,
        !spec_heading_layout(false, numbering, depth, level).is_title,
{
}

/// Headings are numbered only when numbering is on and within the depth.
pub proof fn law_numbering_respects_settings(h1_title: bool, numbering: bool, depth: u8, level: u8)
    ensures
        spec_heading_layout(h1_title, numbering, depth, level).numbered ==> numbering && level
            <= depth,
        numbering && level <= depth && !(h1_title && level == 1) ==> spec_heading_layout(
            h1_title,
            numbering,
            depth,
            level,
        ).numbered,
{
}

proof fn lemma_run_end_bounds(s: Seq<char>, j: int, c: char)
    requires
        0 <= j <= s.len(),
    ensures
        j <= run_end(s, j, c) <= s.len(),
        j < s.len() && s[j] == c ==> j < run_end(s, j, c),
    decreases s.len() - j,
{
    if j < s.len() && s[j] == c {
        lemma_run_end_bounds(s, j + 1, c);
    }
}

/// `s` holds no `^[`, the opening of an inline footnote.
pub open spec fn no_inline_note(s: Seq<char>) -> bool {
    forall|k: int| 0 <= k < s.len() - 1 ==> !(#[trigger] s[k] == '^' && s[k + 1] == '[')
}

proof fn lemma_scan_copies(s: Seq<char>, st: NoteScan)
    requires
        no_inline_note(s),
        0 <= st.i <= s.len(),
        st.out == s.take(st.i),
        st.notes == Seq::<Seq<char>>::empty(),
    ensures
        note_run(s, st).out == s,
        note_run(s, st).notes == Seq::<Seq<char>>::empty(),
    decreases s.len() - st.i,
{
    if st.i < s.len() {
        let i = st.i;
        let a = after_fence(s, st);
        assert(a.i == i && a.out == st.out && a.notes == st.notes);
        let n = note_step(s, st);
        lemma_run_end_bounds(s, i, '`');
        if let Some(fc) = fence_here(s, i) {
            let e = run_end(s, i + 3, fc);
            lemma_run_end_bounds(s, i + 3, fc);
            assert(s.take(i) + s.subrange(i, e) =~= s.take(e));
        } else if a.in_block || s[i] != '`' {
            if !a.in_block && s[i] == '^' && i + 1 < s.len() {
                assert(!(s[i] == '^' && s[i + 1] == '['));
            }
            assert(s.take(i).push(s[i]) =~= s.take(i + 1));
        } else {
            let e = run_end(s, i, '`');
            assert(s.take(i) + s.subrange(i, e) =~= s.take(e));
        }
        assert(st.i < n.i <= s.len());
        lemma_scan_copies(s, n);
    } else {
        assert(s.take(s.len() as int) =~= s);
    }
}

/// A source without `^[` has no inline footnote: it comes out unchanged.
pub proof fn law_no_inline_footnote_no_change(s: Seq<char>)
    requires
        no_inline_note(s),
    ensures
        spec_preprocess_inline_footnotes(s) == s,
{
    assert(s.take(0) =~= Seq::<char>::empty());
    lemma_scan_copies(s, note_init());
    assert(s + Seq::<char>::empty() =~= s);
}

/// The lines `0..n` of `ls`, each followed by a line feed.
pub open spec fn join_lines(ls: Seq<Seq<char>>, n: int) -> Seq<char>
    decreases n,
{
    if n <= 0 {
        seq![]
    } else {
        join_lines(ls, n - 1) + ls[n - 1] + seq!['\n']
    }
}

proof fn lemma_plain_pieces(ls: Seq<Seq<char>>, n: int)
    requires
        0 <= n <= ls.len(),
        forall|k: int|
            0 <= k < ls.len() ==> div_class(trim(#[trigger] ls[k])) is None && !starts_with(
                trim(ls[k]),
                "</div>"@,
            ),
    ensures
        div_pieces(ls, n) == join_lines(ls, n),
    decreases n,
{
    if n > 0 {
        lemma_plain_pieces(ls, n - 1);
        let t = trim(ls[n - 1]);
        assert(div_class(t) is None);
        assert(div_piece(ls, n - 1) =~= ls[n - 1] + seq!['\n']);
    }
}

/// A source without `<div class="...">` or `</div>` lines passes through line
/// by line, each line ended by a line feed.
pub proof fn law_plain_source_passes_through(input: Seq<char>)
    requires
        forall|k: int|
            0 <= k < lines(input).len() ==> div_class(trim(#[trigger] lines(input)[k])) is None
                && !starts_with(trim(lines(input)[k]), "</div>"@),
    ensures
        spec_preprocess_div_tags(input) == join_lines(lines(input), lines(input).len() as int),
{
    lemma_plain_pieces(lines(input), lines(input).len() as int);
}

proof fn lemma_trim_start_first(s: Seq<char>)
    ensures
        trim_start(s).len() > 0 ==> !is_ws(trim_start(s)[0]),
        trim_start(s).len() <= s.len(),
    decreases s.len(),
{
    if s.len() > 0 && is_ws(s[0]) {
        lemma_trim_start_first(s.drop_first());
    }
}

proof fn lemma_trim_end_prefix(s: Seq<char>)
    ensures
        trim_end(s).len() <= s.len(),
        trim_end(s) == s.take(trim_end(s).len() as int),
        trim_end(s).len() > 0 ==> !is_ws(trim_end(s).last()),
    decreases s.len(),
{
    if s.len() > 0 && is_ws(s.last()) {
        lemma_trim_end_prefix(s.drop_last());
        assert(s.drop_last().take(trim_end(s).len() as int) =~= s.take(trim_end(s).len() as int));
    } else {
        assert(s.take(s.len() as int) =~= s);
    }
}

/// A trimmed text neither begins nor ends with whitespace.
pub proof fn law_trim_has_no_outer_whitespace(s: Seq<char>)
    ensures
        trim(s).len() > 0 ==> !is_ws(trim(s)[0]) && !is_ws(trim(s).last()),
{
    lemma_trim_start_first(s);
    lemma_trim_end_prefix(trim_start(s));
    if trim(s).len() > 0 {
        assert(trim(s)[0] == trim_start(s)[0]);
    }
}

/// A class read from a tag is never empty and has no surrounding whitespace.
pub proof fn law_tag_class_is_trimmed(html: Seq<char>, open: Seq<char>)
    ensures
        tag_class(html, open) matches Some(c) ==> c.len() > 0 && !is_ws(c[0]) && !is_ws(c.last()),
{
    let s = trim(html);
    match crate::text::find(s, "class="@) {
        Some(ci) => {
            let after = s.skip(ci + "class="@.len());
            if after.len() > 0 {
                let rest = after.drop_first();
                match crate::text::find_char(rest, after[0]) {
                    Some(e) => law_trim_has_no_outer_whitespace(rest.take(e)),
                    None => {},
                }
            }
        },
        None => {},
    }
}

proof fn lemma_kept_all(s: Seq<char>, n: int)
    requires
        0 <= n <= s.len(),
        forall|i: int| 0 <= i < s.len() ==> !dropped_space(s, i),
    ensures
        kept_chars(s, n) == s.take(n),
    decreases n,
{
    if n > 0 {
        lemma_kept_all(s, n - 1);
        assert(!dropped_space(s, n - 1));
        assert(s.take(n - 1) + seq![s[n - 1]] =~= s.take(n));
    } else {
        assert(s.take(0) =~= Seq::<char>::empty());
    }
}

/// Text without Japanese characters, or without spaces, is left as it is:
/// only a space between Latin and Japanese text is ever removed.
pub proof fn law_spacing_touches_only_mixed_text(s: Seq<char>)
    requires
        (forall|k: int| 0 <= k < s.len() ==> !spec_is_japanese_char(#[trigger] s[k])) || (forall|
            k: int,
        |
            0 <= k < s.len() ==> #[trigger] s[k] != ' '),
    ensures
        spec_process_text(s) == s,
{
    assert forall|i: int| 0 <= i < s.len() implies !dropped_space(s, i) by {
        if dropped_space(s, i) {
            assert(spec_is_japanese_char(s[i - 1]) || spec_is_japanese_char(s[i + 1]));
        }
    }
    lemma_kept_all(s, s.len() as int);
    assert(s.take(s.len() as int) =~= s);
}

/// A paragraph that holds nothing but the page-break directive (spaces
/// around it allowed) becomes a page-break block.
pub proof fn law_lone_directive_becomes_page_break(st: ConvState, t: Seq<char>)
    requires
        st.inline_stack.len() > 0,
        st.inline_stack.last() == seq![InlineV::Text(t)],
        trim(t) == page_break_directive(),
    ensures
        conv_end(st, MdTagEnd::Paragraph) == conv_add_block(
            conv_pop_inlines(st).0,
            BlockV::PageBreak,
        ),
{
}

/// The page-break directive inside the text of a paragraph makes the
/// document invalid, while a page-break block is always accepted.
pub proof fn law_directive_in_text_is_refused(content: Seq<InlineV>, k: int, t: Seq<char>)
    requires
        0 <= k < content.len(),
        content[k] == InlineV::Text(t),
        !text_ok(t),
    ensures
        !blocks_ok(seq![BlockV::Paragraph { content }]),
        blocks_ok(seq![BlockV::PageBreak]),
{
    lemma_inlines_ok(content);
    assert(!inline_ok(content[k]));
    lemma_blocks_ok(seq![BlockV::Paragraph { content }]);
    lemma_blocks_ok(seq![BlockV::PageBreak]);
    let b = BlockV::Paragraph { content };
    assert(!inlines_ok(content));
    assert(!block_ok(b));
    assert(seq![b][0] == b);
    assert(!block_ok(seq![b][0]));
}

/// The counters after `k` more tables.
pub open spec fn tables_counted(n: CaptionNumbers, k: nat) -> CaptionNumbers
    decreases k,
{
    if k == 0 {
        n
    } else {
        table_counted(tables_counted(n, (k - 1) as nat))
    }
}

/// The counters after `k` more figures.
pub open spec fn figures_counted(n: CaptionNumbers, k: nat) -> CaptionNumbers
    decreases k,
{
    if k == 0 {
        n
    } else {
        figure_counted(figures_counted(n, (k - 1) as nat))
    }
}

proof fn lemma_tables_counted(n: CaptionNumbers, k: nat)
    requires
        n.table_seq + k <= u32::MAX,
        n.table_in_chapter + k <= u32::MAX,
    ensures
        tables_counted(n, k).chapter_number == n.chapter_number,
        tables_counted(n, k).table_in_chapter == n.table_in_chapter + k,
        tables_counted(n, k).table_seq == n.table_seq + k,
    decreases k,
{
    if k > 0 {
        lemma_tables_counted(n, (k - 1) as nat);
    }
}

proof fn lemma_figures_counted(n: CaptionNumbers, k: nat)
    requires
        n.figure_seq + k <= u32::MAX,
        n.figure_in_chapter + k <= u32::MAX,
    ensures
        figures_counted(n, k).chapter_number == n.chapter_number,
        figures_counted(n, k).figure_in_chapter == n.figure_in_chapter + k,
        figures_counted(n, k).figure_seq == n.figure_seq + k,
    decreases k,
{
    if k > 0 {
        lemma_figures_counted(n, (k - 1) as nat);
    }
}

/// The `k`-th table after the heading of chapter `c` is numbered `c.k` in the
/// "chapter" format (chapter 1 when no chapter heading came yet): the count
/// restarts with each chapter.  In any other format tables are numbered
/// through the whole document, whatever the chapters.
pub proof fn law_table_numbers_restart_with_chapters(
    n: CaptionNumbers,
    c: u32,
    k: nat,
    format: Seq<char>,
)
    requires
        1 <= k,
        n.table_seq + k <= u32::MAX,
        k <= u32::MAX,
    ensures
        table_label(tables_counted(chapter_started(n, c), k), "chapter"@) == decimal(
            if c == 0 {
                1nat
            } else {
                c as nat
            },
        ) + seq!['.'] + decimal(k),
        format != "chapter"@ ==> table_label(tables_counted(chapter_started(n, c), k), format)
            == decimal((n.table_seq + k) as nat),
{
    lemma_tables_counted(chapter_started(n, c), k);
}

/// The `k`-th figure after the heading of chapter `c` is numbered `c.k` in the
/// "chapter" format (chapter 1 when no chapter heading came yet): the count
/// restarts with each chapter.  In any other format figures are numbered
/// through the whole document, whatever the chapters.
pub proof fn law_figure_numbers_restart_with_chapters(
    n: CaptionNumbers,
    c: u32,
    k: nat,
    format: Seq<char>,
)
    requires
        1 <= k,
        n.figure_seq + k <= u32::MAX,
        k <= u32::MAX,
    ensures
        figure_label(figures_counted(chapter_started(n, c), k), "chapter"@) == decimal(
            if c == 0 {
                1nat
            } else {
                c as nat
            },
        ) + seq!['.'] + decimal(k),
        format != "chapter"@ ==> figure_label(figures_counted(chapter_started(n, c), k), format)
            == decimal((n.figure_seq + k) as nat),
{
    lemma_figures_counted(chapter_started(n, c), k);
}

/// Counting a figure leaves the table numbers as they are, and counting a
/// table leaves the figure numbers: the two are numbered independently.
pub proof fn law_figures_and_tables_counted_apart(n: CaptionNumbers)
    ensures
        table_counted(n).figure_seq == n.figure_seq,
        table_counted(n).figure_in_chapter == n.figure_in_chapter,
        figure_counted(n).table_seq == n.table_seq,
        figure_counted(n).table_in_chapter == n.table_in_chapter,
{
}

/// Blocks added one after another.
pub open spec fn conv_add_blocks(st: ConvState, xs: Seq<BlockV>) -> ConvState
    decreases xs.len(),
{
    if xs.len() == 0 {
        st
    } else {
        conv_add_block(conv_add_blocks(st, xs.drop_last()), xs.last())
    }
}

proof fn lemma_add_blocks_into_div(st: ConvState, xs: Seq<BlockV>)
    requires
        st.div_blocks.len() > 0,
    ensures
        conv_add_blocks(st, xs) == (ConvState {
            div_blocks: st.div_blocks.drop_last().push(st.div_blocks.last() + xs),
            ..st
        }),
    decreases xs.len(),
{
    if xs.len() > 0 {
        lemma_add_blocks_into_div(st, xs.drop_last());
        assert((st.div_blocks.last() + xs.drop_last()).push(xs.last()) =~= st.div_blocks.last() + xs);
        let m = conv_add_blocks(st, xs.drop_last());
        assert(m.div_blocks.drop_last() =~= st.div_blocks.drop_last());
        assert(m.div_blocks.last() == st.div_blocks.last() + xs.drop_last());
        assert(conv_add_blocks(st, xs) == conv_add_block(m, xs.last()));
        assert(conv_add_blocks(st, xs) =~= (ConvState {
            div_blocks: st.div_blocks.drop_last().push(st.div_blocks.last() + xs),
            ..st
        }));
    } else {
        assert(st.div_blocks.drop_last().push(st.div_blocks.last() + xs) =~= st.div_blocks);
        assert(conv_add_blocks(st, xs) =~= (ConvState {
            div_blocks: st.div_blocks.drop_last().push(st.div_blocks.last() + xs),
            ..st
        }));
    }
}

proof fn lemma_push_inlines_into_open(st: ConvState, xs: Seq<InlineV>)
    requires
        st.inline_stack.len() > 0,
    ensures
        conv_push_inlines(st, xs) == (ConvState {
            inline_stack: st.inline_stack.drop_last().push(st.inline_stack.last() + xs),
            ..st
        }),
    decreases xs.len(),
{
    if xs.len() > 0 {
        lemma_push_inlines_into_open(st, xs.drop_last());
        assert((st.inline_stack.last() + xs.drop_last()).push(xs.last()) =~= st.inline_stack.last()
            + xs);
        let m = conv_push_inlines(st, xs.drop_last());
        assert(m.inline_stack.drop_last() =~= st.inline_stack.drop_last());
        assert(m.inline_stack.last() == st.inline_stack.last() + xs.drop_last());
        assert(conv_push_inlines(st, xs) == conv_push_inline(m, xs.last()));
        assert(conv_push_inlines(st, xs) =~= (ConvState {
            inline_stack: st.inline_stack.drop_last().push(st.inline_stack.last() + xs),
            ..st
        }));
    } else {
        assert(st.inline_stack.drop_last().push(st.inline_stack.last() + xs) =~= st.inline_stack);
        assert(conv_push_inlines(st, xs) =~= (ConvState {
            inline_stack: st.inline_stack.drop_last().push(st.inline_stack.last() + xs),
            ..st
        }));
    }
}

proof fn lemma_closing_tag(t: Seq<char>)
    requires
        t.len() > 2,
        t[0] == '<',
        t[1] == '/',
        t.last() == '>',
    ensures
        trim(t) == t,
        div_class(t) is None,
        span_class(t) is None,
{
    reveal_strlit("<div");
    reveal_strlit("<span");
    assert(!is_ws('<'));
    assert(!is_ws('>'));
    assert(trim_start(t) == t);
    assert(trim_end(t) == t);
    assert(!starts_with(t, "<div"@)) by {
        if starts_with(t, "<div"@) {
            assert(t.take(4)[1] == "<div"@[1]);
        }
    }
    assert(!starts_with(t, "<span"@)) by {
        if starts_with(t, "<span"@) {
            assert(t.take(5)[1] == "<span"@[1]);
        }
    }
}

/// A `<div class="...">` line, the blocks that follow it and the `</div>`
/// line that closes it together add one styled division of that class
/// holding exactly those blocks, where a single block would have gone; the
/// divisions open before are as they were.
pub proof fn law_div_wraps_the_blocks_between_its_tags(
    st: ConvState,
    open: Seq<char>,
    xs: Seq<BlockV>,
)
    requires
        div_class(trim(open)) is Some,
    ensures
        conv_html_line(conv_add_blocks(conv_html_line(st, open), xs), "</div>"@) == conv_add_block(
            st,
            BlockV::StyledDiv { class: div_class(trim(open))->0, children: xs },
        ),
{
    reveal_strlit("</div>");
    let c = div_class(trim(open))->0;
    let s1 = conv_html_line(st, open);
    lemma_add_blocks_into_div(s1, xs);
    let s2 = conv_add_blocks(s1, xs);
    lemma_closing_tag("</div>"@);
    assert(starts_with("</div>"@, "</div>"@)) by {
        assert("</div>"@.take(6) =~= "</div>"@);
    }
    assert(s2.div_blocks.last() =~= xs);
    let s3 = ConvState {
        div_blocks: s2.div_blocks.drop_last(),
        div_stack: s2.div_stack.drop_last(),
        ..s2
    };
    assert(s3 =~= st);
}

/// A `<span class="...">` tag, the inline elements that follow it and the
/// `</span>` tag that closes it together add one styled span of that class
/// holding exactly those elements, where a single element would have gone.
pub proof fn law_span_wraps_the_inlines_between_its_tags(
    st: ConvState,
    open: Seq<char>,
    xs: Seq<InlineV>,
)
    requires
        span_class(trim(open)) is Some,
    ensures
        conv_inline_html(conv_push_inlines(conv_inline_html(st, open), xs), "</span>"@)
            == conv_push_inline(
            st,
            InlineV::StyledSpan { class: span_class(trim(open))->0, children: xs },
        ),
{
    reveal_strlit("</span>");
    let s1 = conv_inline_html(st, open);
    lemma_push_inlines_into_open(s1, xs);
    let s2 = conv_push_inlines(s1, xs);
    lemma_closing_tag("</span>"@);
    assert(s2.inline_stack.last() =~= xs);
    let s3 = ConvState {
        inline_stack: s2.inline_stack.drop_last(),
        span_stack: s2.span_stack.drop_last(),
        ..s2
    };
    assert(s3 =~= st);
}

/// The class named after the tag name: `t` must end with `>` and hold
/// `class=` followed by a quoted, nonempty name (see [`tag_class`]).
pub open spec fn class_attribute(t: Seq<char>) -> Option<Seq<char>> {
    if !ends_with(t, seq!['>']) {
        None
    } else {
        match find(t, "class="@) {
            None => None,
            Some(ci) => {
                let after = t.skip(ci + "class="@.len());
                if after.len() > 0 && (after[0] == '"' || after[0] == '\'') {
                    let rest = after.drop_first();
                    match find_char(rest, after[0]) {
                        None => None,
                        Some(e) => {
                            let name = trim(rest.take(e));
                            if name.len() == 0 {
                                None
                            } else {
                                Some(name)
                            }
                        },
                    }
                } else {
                    None
                }
            },
        }
    }
}

proof fn lemma_trim_end_after(p: Seq<char>, r: Seq<char>)
    requires
        p.len() > 0,
        !is_ws(p.last()),
    ensures
        trim_end(p + r) == p + trim_end(r),
    decreases r.len(),
{
    if r.len() > 0 && is_ws(r.last()) {
        assert((p + r).drop_last() =~= p + r.drop_last());
        lemma_trim_end_after(p, r.drop_last());
    } else if r.len() > 0 {
        assert((p + r).last() == r.last());
    } else {
        assert(p + r =~= p);
    }
}

proof fn lemma_find_shifted(p: Seq<char>, t: Seq<char>, k: Seq<char>, j: int)
    requires
        0 <= j,
    ensures
        find_from(p + t, k, p.len() + j) == (match find_from(t, k, j) {
            Some(x) => Some(x + p.len()),
            None => None,
        }),
    decreases t.len() + 1 - j,
{
    if j + k.len() <= t.len() {
        assert((p + t).subrange(p.len() + j, p.len() + j + k.len()) =~= t.subrange(j, j + k.len()));
        if !matches_at(t, k, j) {
            lemma_find_shifted(p, t, k, j + 1);
        }
    }
}

proof fn lemma_find_skips(s: Seq<char>, k: Seq<char>, i: int, m: int)
    requires
        0 <= i <= m,
        forall|q: int| i <= q < m ==> !matches_at(s, k, q),
    ensures
        find_from(s, k, i) == find_from(s, k, m),
    decreases m - i,
{
    if i < m && i + k.len() <= s.len() {
        lemma_find_skips(s, k, i + 1, m);
    } else if i < m {
        assert(find_from(s, k, m) is None) by {
            lemma_find_none_beyond(s, k, m);
        }
    }
}

proof fn lemma_find_none_beyond(s: Seq<char>, k: Seq<char>, m: int)
    requires
        m + k.len() > s.len(),
    ensures
        find_from(s, k, m) is None,
{
}

/// A tag name `p` (no whitespace at its ends, no `c`, not ending in `>`)
/// followed by `r` names the class that `r` names.
proof fn lemma_tag_class_after_name(p: Seq<char>, r: Seq<char>)
    requires
        p.len() > 0,
        !is_ws(p[0]),
        !is_ws(p.last()),
        p.last() != '>',
        forall|q: int| 0 <= q < p.len() ==> p[q] != 'c',
    ensures
        tag_class(p + r, p) == class_attribute(trim_end(r)),
{
    reveal_strlit("class=");
    let t = trim_end(r);
    assert(trim_start(p + r) == p + r);
    lemma_trim_end_after(p, r);
    let s = trim(p + r);
    assert(s == p + t);
    assert(starts_with(s, p)) by {
        assert(s.take(p.len() as int) =~= p);
    }
    assert(ends_with(s, seq!['>']) == ends_with(t, seq!['>'])) by {
        if t.len() > 0 {
            assert(s.skip(s.len() - 1) =~= t.skip(t.len() - 1));
        } else {
            assert(s.skip(s.len() - 1) =~= seq![p.last()]);
            assert(seq![p.last()][0] != seq!['>'][0]);
        }
    }
    let key = "class="@;
    assert forall|q: int| 0 <= q < p.len() implies !matches_at(s, key, q) by {
        if matches_at(s, key, q) {
            assert(s.subrange(q, q + key.len())[0] == key[0]);
            assert(s[q] == p[q]);
        }
    }
    lemma_find_skips(s, key, 0, p.len() as int);
    lemma_find_shifted(p, t, key, 0);
    match find(t, key) {
        Some(x) => {
            crate::text::lemma_find_from(t, key, 0);
            assert(s.skip(x + p.len() + key.len()) =~= t.skip(x + key.len()));
        },
        None => {},
    }
}

/// The `<div>` and `<span>` tags read their class the same way: the two tag
/// names followed by the same text name the same class, or none.
pub proof fn law_div_and_span_classes_agree(r: Seq<char>)
    ensures
        div_class("<div"@ + r) == span_class("<span"@ + r),
{
    reveal_strlit("<div");
    reveal_strlit("<span");
    assert(!is_ws('<') && !is_ws('v') && !is_ws('n'));
    lemma_tag_class_after_name("<div"@, r);
    lemma_tag_class_after_name("<span"@, r);
}

// ---------------------------------------------------------------------
// Runs of text.

proof fn lemma_runs_of_seq_concat(
    a: Seq<InlineV>,
    b: Seq<InlineV>,
    bold: bool,
    heading: bool,
    classes: Seq<Seq<char>>,
)
    ensures
        runs_of_seq(a + b, bold, heading, classes) == runs_of_seq(a, bold, heading, classes)
            + runs_of_seq(b, bold, heading, classes),
    decreases b.len(),
{
    if b.len() == 0 {
        assert(a + b =~= a);
        assert(runs_of_seq(a, bold, heading, classes) + Seq::<RunPieceV>::empty() =~= runs_of_seq(
            a,
            bold,
            heading,
            classes,
        ));
    } else {
        let ab = a + b;
        assert(ab.subrange(0, ab.len() - 1) =~= a + b.subrange(0, b.len() - 1));
        assert(ab[ab.len() - 1] == b[b.len() - 1]);
        lemma_runs_of_seq_concat(a, b.subrange(0, b.len() - 1), bold, heading, classes);
        assert(runs_of_seq(a + b, bold, heading, classes) =~= runs_of_seq(a, bold, heading, classes)
            + runs_of_seq(b, bold, heading, classes));
    }
}

proof fn lemma_runs_of_single(x: InlineV, bold: bool, heading: bool, classes: Seq<Seq<char>>)
    ensures
        runs_of_seq(seq![x], bold, heading, classes) == runs_of(x, bold, heading, classes),
{
    assert(seq![x].subrange(0, 0) =~= Seq::<InlineV>::empty());
    assert(runs_of_seq(Seq::<InlineV>::empty(), bold, heading, classes) =~= Seq::<RunPieceV>::empty());
    assert(seq![x][0] == x);
    assert(Seq::<RunPieceV>::empty() + runs_of(x, bold, heading, classes) =~= runs_of(
        x,
        bold,
        heading,
        classes,
    ));
}

/// The runs of inline elements written one after another are the runs of
/// each, one after another: nothing is lost or reordered at the joins.
pub proof fn law_runs_follow_the_elements(
    a: Seq<InlineV>,
    b: Seq<InlineV>,
    bold: bool,
    heading: bool,
    classes: Seq<Seq<char>>,
)
    ensures
        runs_of_seq(a + b, bold, heading, classes) == runs_of_seq(a, bold, heading, classes)
            + runs_of_seq(b, bold, heading, classes),
{
    lemma_runs_of_seq_concat(a, b, bold, heading, classes);
}

/// Emphasis is written as plain text: an italic element anywhere among
/// inline elements gives exactly the runs that its children give when they
/// stand in its place.
pub proof fn law_italic_is_written_as_its_text(
    before: Seq<InlineV>,
    children: Seq<InlineV>,
    after: Seq<InlineV>,
    bold: bool,
    heading: bool,
    classes: Seq<Seq<char>>,
)
    ensures
        runs_of_seq(before + seq![InlineV::Italic(children)] + after, bold, heading, classes)
            == runs_of_seq(before + children + after, bold, heading, classes),
{
    lemma_runs_of_seq_concat(before + seq![InlineV::Italic(children)], after, bold, heading, classes);
    lemma_runs_of_seq_concat(before, seq![InlineV::Italic(children)], bold, heading, classes);
    lemma_runs_of_single(InlineV::Italic(children), bold, heading, classes);
    lemma_runs_of_seq_concat(before + children, after, bold, heading, classes);
    lemma_runs_of_seq_concat(before, children, bold, heading, classes);
}

/// In a paragraph bold is written as plain text too: a bold element gives
/// the runs its children give in its place.  In a heading its text is bold.
pub proof fn law_bold_is_plain_in_paragraphs(
    before: Seq<InlineV>,
    children: Seq<InlineV>,
    after: Seq<InlineV>,
    bold: bool,
    classes: Seq<Seq<char>>,
)
    ensures
        runs_of_seq(before + seq![InlineV::Bold(children)] + after, bold, false, classes)
            == runs_of_seq(before + children + after, bold, false, classes),
        runs_of_seq(seq![InlineV::Bold(children)], bold, true, classes) == runs_of_seq(
            children,
            true,
            true,
            classes,
        ),
{
    lemma_runs_of_seq_concat(before + seq![InlineV::Bold(children)], after, bold, false, classes);
    lemma_runs_of_seq_concat(before, seq![InlineV::Bold(children)], bold, false, classes);
    lemma_runs_of_single(InlineV::Bold(children), bold, false, classes);
    lemma_runs_of_single(InlineV::Bold(children), bold, true, classes);
    lemma_runs_of_seq_concat(before + children, after, bold, false, classes);
    lemma_runs_of_seq_concat(before, children, bold, false, classes);
}

/// A text element becomes one run holding its text, where only the spaces
/// between Latin and Japanese characters are gone: text without spaces is
/// written whole, with the bold flag asked for and no character style.
pub proof fn law_text_is_written_whole(t: Seq<char>, bold: bool, heading: bool, classes: Seq<Seq<char>>)
    requires
        forall|k: int| 0 <= k < t.len() ==> t[k] != ' ',
    ensures
        runs_of(InlineV::Text(t), bold, heading, classes) == seq![
            RunPieceV::Text { text: t, bold, style: None },
        ],
{
    lemma_kept_all(t, t.len() as int);
    assert(t.take(t.len() as int) =~= t);
}

// ---------------------------------------------------------------------
// Spaces between Latin and Japanese text.

proof fn lemma_kept_shift(s: Seq<char>, u: Seq<char>, off: int, n: int)
    requires
        0 <= off,
        0 <= n,
        off + n <= s.len(),
        n <= u.len(),
        forall|i: int| 0 <= i < n ==> s[off + i] == u[i],
        forall|i: int| 0 <= i < n ==> dropped_space(s, off + i) == dropped_space(u, i),
    ensures
        kept_chars(s, off + n) == kept_chars(s, off) + kept_chars(u, n),
    decreases n,
{
    if n == 0 {
        assert(kept_chars(s, off) + Seq::<char>::empty() =~= kept_chars(s, off));
    } else {
        lemma_kept_shift(s, u, off, n - 1);
        assert(s[off + n - 1] == u[n - 1]);
        assert(dropped_space(s, off + n - 1) == dropped_space(u, n - 1));
        assert(kept_chars(s, off + n) =~= kept_chars(s, off) + kept_chars(u, n));
    }
}

proof fn lemma_space_is_no_letter()
    ensures
        !spec_is_ascii_char(' '),
        !spec_is_japanese_char(' '),
{
}

proof fn lemma_process_around_space(a: Seq<char>, b: Seq<char>)
    requires
        a.len() > 0,
        b.len() > 0,
    ensures
        spec_process_text(a + seq![' '] + b) == spec_process_text(a) + (if dropped_space(
            a + seq![' '] + b,
            a.len() as int,
        ) {
            Seq::<char>::empty()
        } else {
            seq![' ']
        }) + spec_process_text(b),
{
    lemma_space_is_no_letter();
    let s = a + seq![' '] + b;
    let la = a.len() as int;
    assert forall|i: int| 0 <= i < la implies s[i] == a[i] && dropped_space(s, i) == dropped_space(
        a,
        i,
    ) by {
        if i + 1 < la {
            assert(s[i + 1] == a[i + 1]);
        }
        if i > 0 {
            assert(s[i - 1] == a[i - 1]);
        }
        if i == la - 1 {
            assert(s[i + 1] == ' ');
        }
    }
    lemma_kept_shift(s, a, 0, la);
    assert(kept_chars(s, 0) =~= Seq::<char>::empty());
    assert(kept_chars(s, la + 1) == kept_chars(s, la) + if dropped_space(s, la) {
        Seq::<char>::empty()
    } else {
        seq![s[la]]
    });
    assert(s[la] == ' ');
    assert forall|i: int| 0 <= i < b.len() implies s[la + 1 + i] == b[i] && dropped_space(
        s,
        la + 1 + i,
    ) == dropped_space(b, i) by {
        assert(s[la + 1 + i] == b[i]);
        if i + 1 < b.len() {
            assert(s[la + 2 + i] == b[i + 1]);
        }
        if i > 0 {
            assert(s[la + i] == b[i - 1]);
        } else {
            assert(s[la] == ' ');
        }
    }
    lemma_kept_shift(s, b, la + 1, b.len() as int);
    assert(s.len() == la + 1 + b.len());
}

/// A space that stands between a Latin and a Japanese character, in either
/// order, is removed; the texts on either side come out as they would alone.
pub proof fn law_space_between_latin_and_japanese_is_removed(a: Seq<char>, b: Seq<char>)
    requires
        a.len() > 0,
        b.len() > 0,
        (spec_is_ascii_char(a.last()) && spec_is_japanese_char(b[0])) || (spec_is_japanese_char(
            a.last(),
        ) && spec_is_ascii_char(b[0])),
    ensures
        spec_process_text(a + seq![' '] + b) == spec_process_text(a) + spec_process_text(b),
{
    lemma_process_around_space(a, b);
    let s = a + seq![' '] + b;
    assert(s[a.len() as int - 1] == a.last());
    assert(s[a.len() as int + 1] == b[0]);
    assert(spec_process_text(a) + Seq::<char>::empty() =~= spec_process_text(a));
}

/// Any other space is kept: between two Latin characters, two Japanese
/// characters, or next to anything else; the texts on either side come out
/// as they would alone.
pub proof fn law_other_spaces_are_kept(a: Seq<char>, b: Seq<char>)
    requires
        a.len() > 0,
        b.len() > 0,
        !((spec_is_ascii_char(a.last()) && spec_is_japanese_char(b[0])) || (spec_is_japanese_char(
            a.last(),
        ) && spec_is_ascii_char(b[0]))),
    ensures
        spec_process_text(a + seq![' '] + b) == spec_process_text(a) + seq![' '] + spec_process_text(b),
{
    lemma_process_around_space(a, b);
    let s = a + seq![' '] + b;
    assert(s[a.len() as int - 1] == a.last());
    assert(s[a.len() as int + 1] == b[0]);
}

/// Which characters count as Latin and as Japanese: ASCII letters, digits and
/// punctuation are Latin; hiragana, katakana, CJK ideographs, full-width forms
/// and CJK symbols are Japanese; a space is neither.
pub proof fn law_latin_and_japanese_characters(c: char)
    ensures
        ('a' <= c <= 'z' || 'A' <= c <= 'Z' || '0' <= c <= '9' || c == '.' || c == ',' || c == '!'
            || c == '?') ==> spec_is_ascii_char(c),
        ('\u{3041}' <= c <= '\u{309F}' || '\u{30A0}' <= c <= '\u{30FF}' || '\u{4E00}' <= c
            <= '\u{9FFF}' || '\u{3400}' <= c <= '\u{4DBF}' || '\u{FF00}' <= c <= '\u{FFEF}'
            || '\u{3000}' <= c <= '\u{303F}') ==> spec_is_japanese_char(c),
        spec_is_ascii_char(c) ==> !spec_is_japanese_char(c),
        !spec_is_ascii_char(' ') && !spec_is_japanese_char(' '),
{
}

// ---------------------------------------------------------------------
// Table grids.

/// The columns of a table fill the text body exactly: their widths add up to
/// the page width less the left and right margins (a negative margin counts
/// as none, and the body is never below 0), or to one twip per column when
/// the body is narrower than that.
pub proof fn law_table_grid_fills_the_body(p: PageConfig, n: usize)
    requires
        0 < n <= u32::MAX,
    ensures
        grid_sum(spec_grid_total(p, n), n as int, n as int) == ({
            let left: int = if p.margin_left > 0 {
                p.margin_left as int
            } else {
                0
            };
            let right: int = if p.margin_right > 0 {
                p.margin_right as int
            } else {
                0
            };
            let body: int = if p.width - left - right > 0 {
                p.width - left - right
            } else {
                0
            };
            if body > n {
                body
            } else {
                n as int
            }
        }),
{
    assert(spec_body_width(p) >= 0);
    law_table_columns_fill_the_width(spec_grid_total(p, n), n as int);
}

// ---------------------------------------------------------------------
// The page-break directive in tables.

/// A document is refused when a cell of one of its tables, in the header or
/// in the body, holds the page-break directive in its text.
pub proof fn law_directive_in_table_cell_is_refused(
    doc: Seq<BlockV>,
    j: int,
    cells: Seq<Seq<InlineV>>,
    c: int,
    k: int,
    t: Seq<char>,
)
    requires
        0 <= j < doc.len(),
        doc[j] matches BlockV::Table { headers, rows, alignments } && (headers == cells || exists|
            r: int,
        | 0 <= r < rows.len() && rows[r] == cells),
        0 <= c < cells.len(),
        0 <= k < cells[c].len(),
        cells[c][k] == InlineV::Text(t),
        contains(t, "\\pagebreak"@),
    ensures
        !blocks_ok(doc),
{
    lemma_inlines_ok(cells[c]);
    assert(!inline_ok(cells[c][k]));
    assert(!inlines_ok(cells[c]));
    assert(!crate::markup::cells_ok(cells));
    lemma_blocks_ok(doc);
    assert(!block_ok(doc[j]));
}

// ---------------------------------------------------------------------
// Tables read from parser events.

/// The events of one table cell holding the text `t`.
pub open spec fn cell_events(t: Seq<char>) -> Seq<MdEventV> {
    seq![
        MdEventV::Start(MdTagV::TableCell),
        MdEventV::Text(t),
        MdEventV::End(MdTagEnd::TableCell),
    ]
}

/// The events of cells holding the texts `cells`, one after another.
pub open spec fn cells_events(cells: Seq<Seq<char>>) -> Seq<MdEventV>
    decreases cells.len(),
{
    if cells.len() == 0 {
        seq![]
    } else {
        cells_events(cells.drop_last()) + cell_events(cells.last())
    }
}

/// The events of body rows of text cells, one after another.
pub open spec fn rows_events(rows: Seq<Seq<Seq<char>>>) -> Seq<MdEventV>
    decreases rows.len(),
{
    if rows.len() == 0 {
        seq![]
    } else {
        rows_events(rows.drop_last()) + seq![MdEventV::Start(MdTagV::TableRow)] + cells_events(
            rows.last(),
        ) + seq![MdEventV::End(MdTagEnd::TableRow)]
    }
}

/// The events of a table with a header row of text cells `head` and body
/// rows of text cells `rows`, as pulldown-cmark reports them.
pub open spec fn table_events(
    alignments: Seq<ColumnAlignment>,
    head: Seq<Seq<char>>,
    rows: Seq<Seq<Seq<char>>>,
) -> Seq<MdEventV> {
    seq![MdEventV::Start(MdTagV::Table(alignments)), MdEventV::Start(MdTagV::TableHead)]
        + cells_events(head) + seq![MdEventV::End(MdTagEnd::TableHead)] + rows_events(rows) + seq![
        MdEventV::End(MdTagEnd::Table),
    ]
}

/// Cells each holding one text element.
pub open spec fn text_cells(cells: Seq<Seq<char>>) -> Seq<Seq<InlineV>> {
    cells.map_values(|t: Seq<char>| seq![InlineV::Text(t)])
}

proof fn lemma_events_concat(st: ConvState, a: Seq<MdEventV>, b: Seq<MdEventV>)
    ensures
        conv_events(st, a + b) == conv_events(conv_events(st, a), b),
    decreases b.len(),
{
    if b.len() == 0 {
        assert(a + b =~= a);
    } else {
        assert((a + b).drop_last() =~= a + b.drop_last());
        assert((a + b).last() == b.last());
        lemma_events_concat(st, a, b.drop_last());
    }
}

proof fn lemma_events_one(st: ConvState, e: MdEventV)
    ensures
        conv_events(st, seq![e]) == conv_event(st, e),
{
    assert(seq![e].drop_last() =~= Seq::<MdEventV>::empty());
    assert(conv_events(st, Seq::<MdEventV>::empty()) == st);
    assert(seq![e].last() == e);
}

/// A state whose open table is `t`, everything else as in `st`.
pub open spec fn with_table(st: ConvState, t: TableV) -> ConvState {
    ConvState { table: Some(t), ..st }
}

proof fn lemma_cells_events(st: ConvState, t: TableV, cells: Seq<Seq<char>>)
    requires
        st.inline_stack.len() == 0,
    ensures
        ({
            let r = conv_events(with_table(st, t), cells_events(cells));
            &&& r.table is Some
            &&& r == with_table(st, r.table->0)
            &&& r.table->0.cur_row == t.cur_row + text_cells(cells)
            &&& r.table->0.headers == t.headers
            &&& r.table->0.rows == t.rows
            &&& r.table->0.in_header == t.in_header
            &&& r.table->0.alignments == t.alignments
        }),
    decreases cells.len(),
{
    if cells.len() == 0 {
        assert(t.cur_row + text_cells(cells) =~= t.cur_row);
    } else {
        let init = cells.drop_last();
        let x = cells.last();
        lemma_cells_events(st, t, init);
        let m = conv_events(with_table(st, t), cells_events(init));
        let tm = m.table->0;
        lemma_events_concat(with_table(st, t), cells_events(init), cell_events(x));
        let ev = cell_events(x);
        assert(ev =~= seq![ev[0]].push(ev[1]).push(ev[2]));
        lemma_events_one(m, ev[0]);
        lemma_events_push(m, seq![ev[0]], ev[1]);
        lemma_events_push(m, seq![ev[0]].push(ev[1]), ev[2]);
        let r = conv_events(with_table(st, t), cells_events(cells));
        assert(text_cells(cells) =~= text_cells(init).push(seq![InlineV::Text(x)]));
        assert(t.cur_row + text_cells(cells) =~= (t.cur_row + text_cells(init)).push(
            seq![InlineV::Text(x)],
        ));
        assert(seq![InlineV::Text(x)] =~= Seq::<InlineV>::empty().push(InlineV::Text(x)));
        assert(r == with_table(st, r.table->0));
    }
}

proof fn lemma_rows_events(st: ConvState, t: TableV, rows: Seq<Seq<Seq<char>>>)
    requires
        st.inline_stack.len() == 0,
        !t.in_header,
    ensures
        ({
            let r = conv_events(with_table(st, t), rows_events(rows));
            &&& r.table is Some
            &&& r == with_table(st, r.table->0)
            &&& r.table->0.rows == t.rows + rows.map_values(|c: Seq<Seq<char>>| text_cells(c))
            &&& r.table->0.headers == t.headers
            &&& !r.table->0.in_header
            &&& r.table->0.alignments == t.alignments
        }),
    decreases rows.len(),
{
    let f = |c: Seq<Seq<char>>| text_cells(c);
    if rows.len() == 0 {
        assert(t.rows + rows.map_values(f) =~= t.rows);
    } else {
        let init = rows.drop_last();
        let x = rows.last();
        lemma_rows_events(st, t, init);
        let m = conv_events(with_table(st, t), rows_events(init));
        let tm = m.table->0;
        let s1 = seq![MdEventV::Start(MdTagV::TableRow)];
        let s3 = seq![MdEventV::End(MdTagEnd::TableRow)];
        assert(rows_events(rows) == rows_events(init) + s1 + cells_events(x) + s3);
        lemma_events_concat(with_table(st, t), rows_events(init) + s1 + cells_events(x), s3);
        lemma_events_concat(with_table(st, t), rows_events(init) + s1, cells_events(x));
        lemma_events_concat(with_table(st, t), rows_events(init), s1);
        lemma_events_one(m, s1[0]);
        let m1 = conv_events(m, s1);
        let t1 = TableV { cur_row: seq![], ..tm };
        assert(m1 == with_table(st, t1));
        lemma_cells_events(st, t1, x);
        let m2 = conv_events(m1, cells_events(x));
        lemma_events_one(m2, s3[0]);
        assert(m2.table->0.cur_row =~= text_cells(x));
        assert(rows.map_values(f) =~= init.map_values(f).push(text_cells(x)));
        assert(t.rows + rows.map_values(f) =~= (t.rows + init.map_values(f)).push(text_cells(x)));
        let r = conv_events(with_table(st, t), rows_events(rows));
        assert(r == with_table(st, r.table->0));
    }
}

/// A table read from the parser's events keeps everything: its header cells
/// become the header and every body row becomes one row, in order, and the
/// table is added as one block where a block would go.
pub proof fn law_table_keeps_every_row(
    st: ConvState,
    alignments: Seq<ColumnAlignment>,
    head: Seq<Seq<char>>,
    rows: Seq<Seq<Seq<char>>>,
)
    requires
        st.inline_stack.len() == 0,
        st.table is None,
    ensures
        conv_events(st, table_events(alignments, head, rows)) == conv_add_block(
            st,
            BlockV::Table {
                headers: text_cells(head),
                rows: rows.map_values(|c: Seq<Seq<char>>| text_cells(c)),
                alignments,
            },
        ),
{
    let e0 = seq![MdEventV::Start(MdTagV::Table(alignments)), MdEventV::Start(MdTagV::TableHead)];
    let e2 = seq![MdEventV::End(MdTagEnd::TableHead)];
    let e4 = seq![MdEventV::End(MdTagEnd::Table)];
    let all = table_events(alignments, head, rows);
    assert(all == e0 + cells_events(head) + e2 + rows_events(rows) + e4);
    lemma_events_concat(st, e0 + cells_events(head) + e2 + rows_events(rows), e4);
    lemma_events_concat(st, e0 + cells_events(head) + e2, rows_events(rows));
    lemma_events_concat(st, e0 + cells_events(head), e2);
    lemma_events_concat(st, e0, cells_events(head));
    assert(e0 =~= seq![e0[0]].push(e0[1]));
    lemma_events_one(st, e0[0]);
    lemma_events_push(st, seq![e0[0]], e0[1]);
    let t0 = TableV {
        headers: seq![],
        rows: seq![],
        cur_row: seq![],
        cur_cell: seq![],
        in_header: true,
        alignments,
    };
    let a = conv_events(st, e0);
    assert(a == with_table(st, t0));
    lemma_cells_events(st, t0, head);
    let b = conv_events(a, cells_events(head));
    lemma_events_one(b, e2[0]);
    let c = conv_events(b, e2);
    let tc = c.table->0;
    assert(tc.headers =~= text_cells(head));
    assert(c == with_table(st, tc));
    lemma_rows_events(st, tc, rows);
    let d = conv_events(c, rows_events(rows));
    lemma_events_one(d, e4[0]);
    assert(d.table->0.rows =~= rows.map_values(|x: Seq<Seq<char>>| text_cells(x)));
    assert(ConvState { table: None, ..d } == st);
}

} // verus!
