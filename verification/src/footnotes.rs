//! Inline footnotes: `^[text]` becomes a reference `[^__inline_fn_N]`, and a
//! definition `[^__inline_fn_N]: text` is added at the end of the document.
//! Fenced code blocks and inline code spans are left as they are.
use vstd::prelude::*;
use vstd::string::*;
use crate::text::{
    chars_of, decimal, extend_chars, matches_at, matches_at_chars, push_decimal, string_of, sub_chars,
};

verus! {

broadcast use vstd::string::group_string_axioms;

/// The state of the scan over the source characters.
#[verifier::ext_equal]
pub struct NoteScan {
    /// The position reached.
    pub i: int,
    /// The text written so far.
    pub out: Seq<char>,
    /// The contents of the inline footnotes found so far.
    pub notes: Seq<Seq<char>>,
    /// Inside a fenced code block.
    pub in_block: bool,
    /// The character of the open fence (`` ` `` or `~`).
    pub fence: char,
    /// Inside an inline code span.
    pub in_span: bool,
    /// The number of backticks that opened the code span.
    pub ticks: int,
}

/// The end of the run of `c` characters that starts at `j`.
pub open spec fn run_end(s: Seq<char>, j: int, c: char) -> int
    decreases s.len() - j,
{
    if 0 <= j < s.len() && s[j] == c {
        run_end(s, j + 1, c)
    } else {
        j
    }
}

/// The fence character when three backticks or three tildes start at `i`.
pub open spec fn fence_at(s: Seq<char>, i: int) -> Option<char> {
    if matches_at(s, seq!['`', '`', '`'], i) {
        Some('`')
    } else if matches_at(s, seq!['~', '~', '~'], i) {
        Some('~')
    } else {
        None
    }
}

/// Position `i` begins a line.
pub open spec fn line_start(s: Seq<char>, i: int) -> bool {
    i == 0 || (0 < i <= s.len() && s[i - 1] == '\n')
}

/// A fence at the start of a line opens a code block, or closes the open one
/// when it is made of the same character and is at least three long.
pub open spec fn after_fence(s: Seq<char>, st: NoteScan) -> NoteScan {
    if line_start(s, st.i) {
        match fence_at(s, st.i) {
            Some(fc) => {
                let count = run_end(s, st.i + 3, fc) - st.i;
                if st.in_block {
                    if fc == st.fence && count >= 3 {
                        NoteScan { in_block: false, ..st }
                    } else {
                        st
                    }
                } else {
                    NoteScan { in_block: true, fence: fc, ..st }
                }
            },
            None => st,
        }
    } else {
        st
    }
}

/// The text of a footnote from `j` on, with `depth` brackets open: nested
/// brackets are kept, and the bracket that closes the first one ends it.
/// Gives the position after that bracket (or the end of the source) and the text.
pub open spec fn note_scan(s: Seq<char>, j: int, depth: int) -> (int, Seq<char>)
    decreases s.len() - j,
{
    if j < 0 || j >= s.len() {
        (j, seq![])
    } else if s[j] == '[' {
        let r = note_scan(s, j + 1, depth + 1);
        (r.0, seq!['['] + r.1)
    } else if s[j] == ']' {
        if depth - 1 == 0 {
            (j + 1, seq![])
        } else {
            let r = note_scan(s, j + 1, depth - 1);
            (r.0, seq![']'] + r.1)
        }
    } else {
        let r = note_scan(s, j + 1, depth);
        (r.0, seq![s[j]] + r.1)
    }
}

/// The label of the `n`-th inline footnote.
pub open spec fn note_label(n: nat) -> Seq<char> {
    "__inline_fn_"@ + decimal(n)
}

/// The fence character when a fence stands at `i` at the start of a line.
pub open spec fn fence_here(s: Seq<char>, i: int) -> Option<char> {
    if line_start(s, i) {
        fence_at(s, i)
    } else {
        None
    }
}

/// One step of the scan.  A fence is copied whole, so that its backticks
/// never open an inline code span; inside a code block every character is
/// copied; a run of backticks opens or closes a code span; an inline
/// footnote outside code becomes a numbered reference.
pub open spec fn note_step(s: Seq<char>, st: NoteScan) -> NoteScan {
    let a = after_fence(s, st);
    let i = st.i;
    if let Some(fc) = fence_here(s, i) {
        let e = run_end(s, i + 3, fc);
        NoteScan { i: e, out: a.out + s.subrange(i, e), ..a }
    } else if a.in_block {
        NoteScan { i: i + 1, out: a.out.push(s[i]), ..a }
    } else if s[i] == '`' {
        let e = run_end(s, i, '`');
        let count = e - i;
        let in_span = if a.in_span { count != a.ticks } else { true };
        let ticks = if a.in_span { a.ticks } else { count };
        NoteScan { i: e, out: a.out + s.subrange(i, e), in_span, ticks, ..a }
    } else if a.in_span {
        NoteScan { i: i + 1, out: a.out.push(s[i]), ..a }
    } else if s[i] == '^' && i + 1 < s.len() && s[i + 1] == '[' {
        let r = note_scan(s, i + 2, 1);
        NoteScan {
            i: r.0,
            out: a.out + "[^"@ + note_label(a.notes.len() + 1) + "]"@,
            notes: a.notes.push(r.1),
            ..a
        }
    } else {
        NoteScan { i: i + 1, out: a.out.push(s[i]), ..a }
    }
}

/// The scan from `st` to the end of the source.
pub open spec fn note_run(s: Seq<char>, st: NoteScan) -> NoteScan
    decreases s.len() - st.i,
{
    if st.i < 0 || st.i >= s.len() {
        st
    } else {
        let n = note_step(s, st);
        if st.i < n.i <= s.len() {
            note_run(s, n)
        } else {
            st
        }
    }
}

/// The scan state at the start of the source.
pub open spec fn note_init() -> NoteScan {
    NoteScan {
        i: 0,
        out: seq![],
        notes: seq![],
        in_block: false,
        fence: ' ',
        in_span: false,
        ticks: 0,
    }
}

/// The definitions of the first `k` footnotes, each after a blank line.
pub open spec fn note_defs(notes: Seq<Seq<char>>, k: int) -> Seq<char>
    decreases k,
{
    if k <= 0 {
        seq![]
    } else {
        note_defs(notes, k - 1) + "\n\n[^"@ + note_label(k as nat) + "]: "@ + notes[k - 1]
    }
}

/// The source with its inline footnotes turned into references and definitions.
pub open spec fn spec_preprocess_inline_footnotes(s: Seq<char>) -> Seq<char> {
    let f = note_run(s, note_init());
    f.out + note_defs(f.notes, f.notes.len() as int)
}

fn run_end_exec(s: &Vec<char>, j: usize, c: char) -> (r: usize)
    requires
        j <= s.len(),
    ensures
        r as int == run_end(s@, j as int, c),
        j <= r <= s.len(),
        j < s.len() && s@[j as int] == c ==> j < r,
{
    let mut k = j;
    while k < s.len() && s[k] == c
        invariant
            j <= k <= s.len(),
            run_end(s@, j as int, c) == run_end(s@, k as int, c),
        decreases s.len() - k,
    {
        k = k + 1;
    }
    k
}

fn note_scan_exec(s: &Vec<char>, j: usize) -> (r: (usize, Vec<char>))
    requires
        2 <= j <= s.len(),
    ensures
        (r.0 as int, r.1@) == note_scan(s@, j as int, 1),
        j <= r.0 <= s.len(),
{
    let mut k = j;
    let mut depth: usize = 1;
    let mut content: Vec<char> = Vec::new();
    while k < s.len()
        invariant
            2 <= j <= k <= s.len(),
            1 <= depth <= k - j + 1,
            note_scan(s@, j as int, 1) == (
                note_scan(s@, k as int, depth as int).0,
                content@ + note_scan(s@, k as int, depth as int).1,
            ),
        decreases s.len() - k,
    {
        let c = s[k];
        assert(depth < k);
        if c == '[' {
            depth = depth + 1;
            content.push(c);
            k = k + 1;
        } else if c == ']' {
            if depth - 1 == 0 {
                assert(content@ + Seq::<char>::empty() =~= content@);
                return (k + 1, content);
            }
            depth = depth - 1;
            content.push(c);
            k = k + 1;
        } else {
            content.push(c);
            k = k + 1;
        }
        proof {
            assert(content@ + note_scan(s@, k as int, depth as int).1 =~= content@.drop_last() + (
            seq![c] + note_scan(s@, k as int, depth as int).1));
        }
    }
    assert(content@ + Seq::<char>::empty() =~= content@);
    (k, content)
}

fn push_label(out: &mut Vec<char>, n: usize)
    ensures
        final(out)@ == old(out)@ + note_label(n as nat),
{
    let p = chars_of("__inline_fn_");
    extend_chars(out, &p);
    push_decimal(out, n as u64);
    assert(out@ =~= old(out)@ + note_label(n as nat));
}

/// The ghost scan state that the executable state stands for.
pub open spec fn scan_state(
    i: usize,
    out: Seq<char>,
    notes: Seq<Vec<char>>,
    in_block: bool,
    fence: char,
    in_span: bool,
    ticks: usize,
) -> NoteScan {
    NoteScan {
        i: i as int,
        out,
        notes: notes.map_values(|v: Vec<char>| v@),
        in_block,
        fence,
        in_span,
        ticks: ticks as int,
    }
}

/// Turns every inline footnote `^[text]` outside code into a reference
/// `[^__inline_fn_N]` (numbered from 1 in order of appearance) and appends
/// the definitions `[^__inline_fn_N]: text`, each after a blank line.
pub fn preprocess_inline_footnotes(input: &str) -> (r: String)
    ensures
        r@ == spec_preprocess_inline_footnotes(input@),
{
    let s = chars_of(input);
    let mut out: Vec<char> = Vec::new();
    let mut notes: Vec<Vec<char>> = Vec::new();
    let mut in_block = false;
    let mut fence = ' ';
    let mut in_span = false;
    let mut ticks: usize = 0;
    let mut i: usize = 0;
    let mut bt: Vec<char> = Vec::new();
    bt.push('`');
    bt.push('`');
    bt.push('`');
    let mut tl: Vec<char> = Vec::new();
    tl.push('~');
    tl.push('~');
    tl.push('~');
    assert(bt@ =~= seq!['`', '`', '`']);
    assert(tl@ =~= seq!['~', '~', '~']);
    assert(scan_state(i, out@, notes@, in_block, fence, in_span, ticks) =~= note_init());
    while i < s.len()
        invariant
            i <= s.len(),
            notes.len() <= i,
            bt@ == seq!['`', '`', '`'],
            tl@ == seq!['~', '~', '~'],
            note_run(s@, note_init()) == note_run(
                s@,
                scan_state(i, out@, notes@, in_block, fence, in_span, ticks),
            ),
        decreases s.len() - i,
    {
        let ghost st0 = scan_state(i, out@, notes@, in_block, fence, in_span, ticks);
        let mut fenced = false;
        let mut fence_end: usize = i;
        if i == 0 || s[i - 1] == '\n' {
            let mut has = false;
            let mut fc = ' ';
            if matches_at_chars(&s, &bt, i) {
                has = true;
                fc = '`';
            } else if matches_at_chars(&s, &tl, i) {
                has = true;
                fc = '~';
            }
            if has {
                let idx = run_end_exec(&s, i + 3, fc);
                let count = idx - i;
                if in_block {
                    if fc == fence && count >= 3 {
                        in_block = false;
                    }
                } else {
                    in_block = true;
                    fence = fc;
                }
                fenced = true;
                fence_end = idx;
            }
        }
        let ghost a = scan_state(i, out@, notes@, in_block, fence, in_span, ticks);
        assert(a == after_fence(s@, st0));
        assert(fenced <==> fence_here(s@, i as int) is Some);
        if fenced {
            let run = sub_chars(&s, i, fence_end);
            extend_chars(&mut out, &run);
            i = fence_end;
        } else if in_block {
            out.push(s[i]);
            i = i + 1;
        } else if s[i] == '`' {
            let e = run_end_exec(&s, i, '`');
            let count = e - i;
            if in_span {
                if count == ticks {
                    in_span = false;
                }
            } else {
                in_span = true;
                ticks = count;
            }
            let run = sub_chars(&s, i, e);
            extend_chars(&mut out, &run);
            i = e;
        } else if in_span {
            out.push(s[i]);
            i = i + 1;
        } else if s[i] == '^' && i + 1 < s.len() && s[i + 1] == '[' {
            let (e, content) = note_scan_exec(&s, i + 2);
            let n = notes.len() + 1;
            out.push('[');
            out.push('^');
            push_label(&mut out, n);
            out.push(']');
            proof {
                reveal_strlit("[^");
                reveal_strlit("]");
            }
            let ghost nv = notes@;
            notes.push(content);
            assert(notes@.map_values(|v: Vec<char>| v@) =~= nv.map_values(|v: Vec<char>| v@).push(
                content@,
            ));
            i = e;
        } else {
            out.push(s[i]);
            i = i + 1;
        }
        let ghost st1 = scan_state(i, out@, notes@, in_block, fence, in_span, ticks);
        assert(st1 =~= note_step(s@, st0));
    }
    let ghost f = scan_state(i, out@, notes@, in_block, fence, in_span, ticks);
    proof {
        assert(note_run(s@, f) == f);
    }
    let ghost base = out@;
    let mut k: usize = 0;
    while k < notes.len()
        invariant
            k <= notes.len(),
            out@ == base + note_defs(notes@.map_values(|v: Vec<char>| v@), k as int),
        decreases notes.len() - k,
    {
        let sep = chars_of("\n\n[^");
        extend_chars(&mut out, &sep);
        push_label(&mut out, k + 1);
        let mid = chars_of("]: ");
        extend_chars(&mut out, &mid);
        extend_chars(&mut out, &notes[k]);
        k = k + 1;
        assert(out@ =~= base + note_defs(notes@.map_values(|v: Vec<char>| v@), k as int));
    }
    string_of(&out)
}

} // verus!
