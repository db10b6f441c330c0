//! Properties of the diff parser that hold for every input text.

use vstd::prelude::*;

use crate::diff::{blank_view, blanks, DiffKind, DiffView, LineView};
use crate::parser::{
    balanced, content_of, flush, initial_state, is_hunk_header, marker_of, parse_model, run, split_lines,
    step, ParseState,
};

verus! {

/// Parsing depends on the text alone: two equal texts give equal columns.
pub proof fn lemma_parse_deterministic(a: Seq<char>, b: Seq<char>)
    requires
        a == b,
    ensures
        parse_model(a) == parse_model(b),
{
}

/// Lines that hold no hunk header leave the parser where it started.
pub proof fn lemma_run_without_header(lines: Seq<Seq<char>>)
    requires
        forall|i: int| 0 <= i < lines.len() ==> !is_hunk_header(#[trigger] lines[i]),
    ensures
        run(lines) == initial_state(),
    decreases lines.len(),
{
    if lines.len() > 0 {
        let prefix = lines.drop_last();
        assert forall|i: int| 0 <= i < prefix.len() implies !is_hunk_header(#[trigger] prefix[i]) by {
            assert(prefix[i] == lines[i]);
        }
        lemma_run_without_header(prefix);
        assert(!is_hunk_header(lines[lines.len() - 1]));
    }
}

/// A text in which no line is a hunk header gives two empty columns.
pub proof fn lemma_no_header_gives_empty_diff(text: Seq<char>)
    requires
        forall|i: int|
            0 <= i < split_lines(text).len() ==> !is_hunk_header(#[trigger] split_lines(text)[i]),
    ensures
        parse_model(text) == (DiffView { old: Seq::empty(), new: Seq::empty() }),
{
    lemma_run_without_header(split_lines(text));
    assert(parse_model(text).old =~= Seq::<LineView>::empty());
    assert(parse_model(text).new =~= Seq::<LineView>::empty());
}

/// The number of rows of a column that are not filler rows.
pub open spec fn non_blank_count(s: Seq<LineView>) -> nat
    decreases s.len(),
{
    if s.len() == 0 {
        0
    } else {
        non_blank_count(s.drop_last()) + if s.last().kind == DiffKind::Blank {
            0nat
        } else {
            1nat
        }
    }
}

/// A column whose rows are numbered from 1 up, one number per row that is
/// not a filler row; filler rows carry no number and no text; no row is of
/// the kind `foreign`, which belongs to the other column.
pub open spec fn numbered_column(s: Seq<LineView>, foreign: DiffKind) -> bool {
    forall|i: int|
        0 <= i < s.len() ==> {
            &&& (#[trigger] s[i]).kind != foreign
            &&& s[i].kind == DiffKind::Blank ==> s[i].line_number is None && s[i].content.len()
                == 0
            &&& s[i].kind != DiffKind::Blank ==> s[i].line_number == Some(
                non_blank_count(s.take(i)) + 1,
            )
        }
}

/// A row that may follow the column `s` in a numbered column.
pub open spec fn fits_after(s: Seq<LineView>, x: LineView, foreign: DiffKind) -> bool {
    &&& x.kind != foreign
    &&& x.kind == DiffKind::Blank ==> x.line_number is None && x.content.len() == 0
    &&& x.kind != DiffKind::Blank ==> x.line_number == Some(non_blank_count(s) + 1)
}

proof fn lemma_push_row(s: Seq<LineView>, x: LineView, foreign: DiffKind)
    requires
        numbered_column(s, foreign),
        fits_after(s, x, foreign),
    ensures
        numbered_column(s.push(x), foreign),
        non_blank_count(s.push(x)) == non_blank_count(s) + if x.kind == DiffKind::Blank {
            0nat
        } else {
            1nat
        },
{
    let t = s.push(x);
    assert(t.drop_last() =~= s);
    assert forall|i: int| 0 <= i < t.len() implies {
        &&& (#[trigger] t[i]).kind != foreign
        &&& t[i].kind == DiffKind::Blank ==> t[i].line_number is None && t[i].content.len() == 0
        &&& t[i].kind != DiffKind::Blank ==> t[i].line_number == Some(
            non_blank_count(t.take(i)) + 1,
        )
    } by {
        if i < s.len() {
            assert(t.take(i) =~= s.take(i));
            assert(t[i] == s[i]);
        } else {
            assert(t.take(i) =~= s);
        }
    }
}

proof fn lemma_pad_column(s: Seq<LineView>, n: nat, foreign: DiffKind)
    requires
        numbered_column(s, foreign),
        foreign != DiffKind::Blank,
    ensures
        numbered_column(s + blanks(n), foreign),
        non_blank_count(s + blanks(n)) == non_blank_count(s),
    decreases n,
{
    if n == 0 {
        assert(s + blanks(n) =~= s);
    } else {
        lemma_pad_column(s, (n - 1) as nat, foreign);
        assert(s + blanks(n) =~= (s + blanks((n - 1) as nat)).push(blank_view()));
        lemma_push_row(s + blanks((n - 1) as nat), blank_view(), foreign);
    }
}

/// The numbering that a pass keeps: each column numbered, and each side's
/// next line number one past its rows so far.
pub open spec fn numbering_kept(st: ParseState) -> bool {
    &&& numbered_column(st.old, DiffKind::Addition)
    &&& numbered_column(st.new, DiffKind::Removal)
    &&& st.old_number == non_blank_count(st.old) + 1
    &&& st.new_number == non_blank_count(st.new) + 1
}

proof fn lemma_flush_numbering(st: ParseState)
    requires
        numbering_kept(st),
    ensures
        numbering_kept(flush(st)),
{
    lemma_pad_column(st.old, st.additions, DiffKind::Addition);
    lemma_pad_column(st.new, st.removals, DiffKind::Removal);
}

proof fn lemma_step_numbering(st: ParseState, line: Seq<char>)
    requires
        numbering_kept(st),
    ensures
        numbering_kept(step(st, line)),
{
    let next = step(st, line);
    if is_hunk_header(line) || !st.started {
    } else if next.new.len() == st.new.len() + 1 && next.old == st.old {
        lemma_push_row(st.new, next.new.last(), DiffKind::Removal);
        assert(next.new =~= st.new.push(next.new.last()));
    } else if next.old.len() == st.old.len() + 1 && next.new == st.new {
        lemma_push_row(st.old, next.old.last(), DiffKind::Addition);
        assert(next.old =~= st.old.push(next.old.last()));
    } else {
        let f = flush(st);
        lemma_flush_numbering(st);
        lemma_push_row(f.old, next.old.last(), DiffKind::Addition);
        lemma_push_row(f.new, next.new.last(), DiffKind::Removal);
        assert(next.old =~= f.old.push(next.old.last()));
        assert(next.new =~= f.new.push(next.new.last()));
    }
}

proof fn lemma_run_numbering(lines: Seq<Seq<char>>)
    ensures
        numbering_kept(run(lines)),
    decreases lines.len(),
{
    if lines.len() == 0 {
        assert(numbering_kept(initial_state()));
    } else {
        lemma_run_numbering(lines.drop_last());
        lemma_step_numbering(run(lines.drop_last()), lines.last());
    }
}

/// In the columns of any parsed text, the left one numbers the removed and
/// the kept lines 1, 2, 3, ... and holds no addition; the right one numbers
/// the added and the kept lines 1, 2, 3, ... and holds no removal; filler rows
/// carry no line number and no text.
pub proof fn lemma_parse_line_numbers(text: Seq<char>)
    ensures
        numbered_column(parse_model(text).old, DiffKind::Addition),
        numbered_column(parse_model(text).new, DiffKind::Removal),
{
    lemma_run_numbering(split_lines(text));
    lemma_flush_numbering(run(split_lines(text)));
}

/// A body line with the given marker (not a hunk header).
pub open spec fn body_line(line: Seq<char>, marker: char) -> bool {
    !is_hunk_header(line) && marker_of(line) == marker
}

/// A context line: neither a hunk header nor an addition nor a removal.
pub open spec fn context_line(line: Seq<char>) -> bool {
    !is_hunk_header(line) && marker_of(line) != '+' && marker_of(line) != '-'
}

/// Inside a hunk, with no change block pending, three removals followed by one
/// addition and a context line give the left column the three removed rows
/// and the context row, and the right column the added row, two filler rows,
/// then the context row: two fillers on the right, none on the left.
pub proof fn lemma_three_removals_one_addition(
    st: ParseState,
    r1: Seq<char>,
    r2: Seq<char>,
    r3: Seq<char>,
    a: Seq<char>,
    n: Seq<char>,
)
    requires
        st.started,
        st.additions == 0,
        st.removals == 0,
        body_line(r1, '-'),
        body_line(r2, '-'),
        body_line(r3, '-'),
        body_line(a, '+'),
        context_line(n),
    ensures
        ({
            let end = step(step(step(step(step(st, r1), r2), r3), a), n);
            &&& end.old == st.old + seq![
                LineView {
                    content: content_of(r1),
                    kind: DiffKind::Removal,
                    line_number: Some(st.old_number),
                },
                LineView {
                    content: content_of(r2),
                    kind: DiffKind::Removal,
                    line_number: Some(st.old_number + 1),
                },
                LineView {
                    content: content_of(r3),
                    kind: DiffKind::Removal,
                    line_number: Some(st.old_number + 2),
                },
                LineView {
                    content: content_of(n),
                    kind: DiffKind::Neutral,
                    line_number: Some(st.old_number + 3),
                },
            ]
            &&& end.new == st.new + seq![
                LineView {
                    content: content_of(a),
                    kind: DiffKind::Addition,
                    line_number: Some(st.new_number),
                },
                blank_view(),
                blank_view(),
                LineView {
                    content: content_of(n),
                    kind: DiffKind::Neutral,
                    line_number: Some(st.new_number + 1),
                },
            ]
            &&& end.additions == 0
            &&& end.removals == 0
        }),
{
    let s4 = step(step(step(step(st, r1), r2), r3), a);
    assert(s4.removals == 2);
    assert(blanks(2) =~= seq![blank_view(), blank_view()]);
    assert(blanks(0) =~= Seq::<LineView>::empty());
    let end = step(s4, n);
    assert(end.old =~= st.old + seq![
        LineView {
            content: content_of(r1),
            kind: DiffKind::Removal,
            line_number: Some(st.old_number),
        },
        LineView {
            content: content_of(r2),
            kind: DiffKind::Removal,
            line_number: Some(st.old_number + 1),
        },
        LineView {
            content: content_of(r3),
            kind: DiffKind::Removal,
            line_number: Some(st.old_number + 2),
        },
        LineView {
            content: content_of(n),
            kind: DiffKind::Neutral,
            line_number: Some(st.old_number + 3),
        },
    ]);
    assert(end.new =~= st.new + seq![
        LineView {
            content: content_of(a),
            kind: DiffKind::Addition,
            line_number: Some(st.new_number),
        },
        blank_view(),
        blank_view(),
        LineView {
            content: content_of(n),
            kind: DiffKind::Neutral,
            line_number: Some(st.new_number + 1),
        },
    ]);
}

/// Every kept row of column `a` has a kept row with the same text at the
/// same index of column `b`.
pub open spec fn kept_rows_matched(a: Seq<LineView>, b: Seq<LineView>) -> bool {
    forall|i: int|
        0 <= i < a.len() && (#[trigger] a[i]).kind == DiffKind::Neutral ==> i < b.len()
            && b[i].kind == DiffKind::Neutral && b[i].content == a[i].content
}

/// Kept rows stand side by side in a state, and the state is balanced.
pub open spec fn side_by_side(st: ParseState) -> bool {
    &&& kept_rows_matched(st.old, st.new)
    &&& kept_rows_matched(st.new, st.old)
    &&& balanced(st)
}

proof fn lemma_append_unkept(a: Seq<LineView>, b: Seq<LineView>, extra: Seq<LineView>)
    requires
        kept_rows_matched(a, b),
        kept_rows_matched(b, a),
        forall|k: int| 0 <= k < extra.len() ==> (#[trigger] extra[k]).kind != DiffKind::Neutral,
    ensures
        kept_rows_matched(a + extra, b),
        kept_rows_matched(b, a + extra),
{
    let c = a + extra;
    assert forall|i: int|
        0 <= i < c.len() && (#[trigger] c[i]).kind == DiffKind::Neutral implies i < b.len()
            && b[i].kind == DiffKind::Neutral && b[i].content == c[i].content by {
        if i >= a.len() {
            assert(extra[i - a.len()] == c[i]);
        } else {
            assert(c[i] == a[i]);
        }
    }
    assert forall|i: int|
        0 <= i < b.len() && (#[trigger] b[i]).kind == DiffKind::Neutral implies i < c.len()
            && c[i].kind == DiffKind::Neutral && c[i].content == b[i].content by {
        assert(c[i] == a[i]);
    }
}

proof fn lemma_push_unkept(a: Seq<LineView>, b: Seq<LineView>, x: LineView)
    requires
        kept_rows_matched(a, b),
        kept_rows_matched(b, a),
        x.kind != DiffKind::Neutral,
    ensures
        kept_rows_matched(a.push(x), b),
        kept_rows_matched(b, a.push(x)),
{
    assert(a.push(x) =~= a + seq![x]);
    lemma_append_unkept(a, b, seq![x]);
}

proof fn lemma_pad_unkept(a: Seq<LineView>, b: Seq<LineView>, n: nat)
    requires
        kept_rows_matched(a, b),
        kept_rows_matched(b, a),
    ensures
        kept_rows_matched(a + blanks(n), b),
        kept_rows_matched(b, a + blanks(n)),
{
    lemma_append_unkept(a, b, blanks(n));
}

proof fn lemma_flush_side_by_side(st: ParseState)
    requires
        side_by_side(st),
    ensures
        side_by_side(flush(st)),
        flush(st).old.len() == flush(st).new.len(),
{
    lemma_pad_unkept(st.old, st.new, st.additions);
    lemma_pad_unkept(st.new, st.old + blanks(st.additions), st.removals);
}

proof fn lemma_step_side_by_side(st: ParseState, line: Seq<char>)
    requires
        side_by_side(st),
    ensures
        side_by_side(step(st, line)),
{
    let next = step(st, line);
    lemma_run_balanced_step(st, line);
    if is_hunk_header(line) || !st.started {
    } else if marker_of(line) == '+' {
        lemma_push_unkept(st.new, st.old, next.new.last());
        assert(next.new =~= st.new.push(next.new.last()));
    } else if marker_of(line) == '-' {
        lemma_push_unkept(st.old, st.new, next.old.last());
        assert(next.old =~= st.old.push(next.old.last()));
    } else {
        let f = flush(st);
        lemma_flush_side_by_side(st);
        let x = next.old.last();
        let y = next.new.last();
        assert(next.old =~= f.old.push(x));
        assert(next.new =~= f.new.push(y));
        assert forall|i: int|
            0 <= i < next.old.len() && (#[trigger] next.old[i]).kind == DiffKind::Neutral implies i
            < next.new.len() && next.new[i].kind == DiffKind::Neutral && next.new[i].content
            == next.old[i].content by {
            if i < f.old.len() {
                assert(next.old[i] == f.old[i]);
                assert(next.new[i] == f.new[i]);
            }
        }
        assert forall|i: int|
            0 <= i < next.new.len() && (#[trigger] next.new[i]).kind == DiffKind::Neutral implies i
            < next.old.len() && next.old[i].kind == DiffKind::Neutral && next.old[i].content
            == next.new[i].content by {
            if i < f.new.len() {
                assert(next.old[i] == f.old[i]);
                assert(next.new[i] == f.new[i]);
            }
        }
    }
}

proof fn lemma_run_balanced_step(st: ParseState, line: Seq<char>)
    requires
        balanced(st),
    ensures
        balanced(step(st, line)),
{
}

proof fn lemma_run_side_by_side(lines: Seq<Seq<char>>)
    ensures
        side_by_side(run(lines)),
    decreases lines.len(),
{
    if lines.len() > 0 {
        lemma_run_side_by_side(lines.drop_last());
        lemma_step_side_by_side(run(lines.drop_last()), lines.last());
    }
}

/// In the columns of any parsed text, a row is a kept (context) row on the
/// left exactly when the row at the same index on the right is one, and the
/// two hold the same text.
pub proof fn lemma_parse_kept_rows_side_by_side(text: Seq<char>)
    ensures
        forall|i: int|
            0 <= i < parse_model(text).old.len() ==> ((#[trigger] parse_model(text).old[i]).kind
                == DiffKind::Neutral <==> parse_model(text).new[i].kind == DiffKind::Neutral),
        forall|i: int|
            0 <= i < parse_model(text).old.len() && (#[trigger] parse_model(text).old[i]).kind
                == DiffKind::Neutral ==> parse_model(text).new[i].content == parse_model(
                text,
            ).old[i].content,
{
    lemma_run_side_by_side(split_lines(text));
    lemma_flush_side_by_side(run(split_lines(text)));
}

} // verus!
