use mdd::footnotes::preprocess_inline_footnotes;
use mdd::preprocess::preprocess_div_tags;

#[test]
fn splits_single_line_div() {
    assert_eq!(
        preprocess_div_tags("<div class=\"todo\">TODO: text</div>\nAfter div.\n"),
        "<div class=\"todo\">\n\nTODO: text\n\n</div>\n\nAfter div.\n"
    );
}

#[test]
fn separates_div_tags_from_following_lines() {
    assert_eq!(
        preprocess_div_tags("<div class=\"x\">\ntext\n</div>\nmore"),
        "<div class=\"x\">\n\ntext\n</div>\n\nmore\n"
    );
}

#[test]
fn empty_single_line_div_keeps_only_tags() {
    assert_eq!(
        preprocess_div_tags("<div class=\"x\"></div>"),
        "<div class=\"x\">\n\n</div>\n"
    );
}

#[test]
fn plain_lines_pass_through() {
    assert_eq!(preprocess_div_tags("a\r\nb\n\nc"), "a\nb\n\nc\n");
    assert_eq!(preprocess_div_tags(""), "");
}

#[test]
fn turns_inline_footnote_into_reference_and_definition() {
    assert_eq!(
        preprocess_inline_footnotes("A^[note]."),
        "A[^__inline_fn_1].\n\n[^__inline_fn_1]: note"
    );
}

#[test]
fn numbers_inline_footnotes_in_order_and_keeps_nested_brackets() {
    assert_eq!(
        preprocess_inline_footnotes("x^[a [b] c]y^[z]"),
        "x[^__inline_fn_1]y[^__inline_fn_2]\n\n[^__inline_fn_1]: a [b] c\n\n[^__inline_fn_2]: z"
    );
}

#[test]
fn leaves_code_spans_and_fenced_blocks_alone() {
    assert_eq!(
        preprocess_inline_footnotes("`^[no]` ^[yes]"),
        "`^[no]` [^__inline_fn_1]\n\n[^__inline_fn_1]: yes"
    );
    assert_eq!(preprocess_inline_footnotes("```\n^[x]\n```\n"), "```\n^[x]\n```\n");
    assert_eq!(preprocess_inline_footnotes("~~~\n^[x]\n~~~\n"), "~~~\n^[x]\n~~~\n");
}

#[test]
fn unterminated_inline_footnote_runs_to_the_end() {
    assert_eq!(
        preprocess_inline_footnotes("a^[b"),
        "a[^__inline_fn_1]\n\n[^__inline_fn_1]: b"
    );
}

#[test]
fn text_without_caret_is_unchanged() {
    let s = "no footnotes [here] at all";
    assert_eq!(preprocess_inline_footnotes(s), s);
}

#[test]
fn converts_inline_footnote_after_closed_code_block() {
    assert_eq!(
        preprocess_inline_footnotes("```\nx\n```\na^[b]"),
        "```\nx\n```\na[^__inline_fn_1]\n\n[^__inline_fn_1]: b"
    );
    assert_eq!(
        preprocess_inline_footnotes("~~~~\nx\n~~~~\n^[c]"),
        "~~~~\nx\n~~~~\n[^__inline_fn_1]\n\n[^__inline_fn_1]: c"
    );
    assert_eq!(
        preprocess_inline_footnotes("```rust\n^[in]\n```\n`^[span]` ^[out]"),
        "```rust\n^[in]\n```\n`^[span]` [^__inline_fn_1]\n\n[^__inline_fn_1]: out"
    );
}
