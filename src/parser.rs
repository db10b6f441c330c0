use vstd::prelude::*;

use crate::diff::{blank_view, blanks, lines_view, Diff, DiffKind, DiffLine, DiffView, LineView};
use crate::text::string_from_chars;

verus! {

/// The lines of a text, cut at each `'\n'`: `n` newlines give `n + 1` lines,
/// the last of them empty when the text ends with a newline.
pub open spec fn split_lines(text: Seq<char>) -> Seq<Seq<char>>
    decreases text.len(),
{
    if text.len() == 0 {
        seq![Seq::empty()]
    } else {
        let before = split_lines(text.drop_last());
        if text.last() == '\n' {
            before.push(Seq::empty())
        } else {
            before.update(before.len() - 1, before.last().push(text.last()))
        }
    }
}

/// A hunk header: a line that starts with `@@` and ends with `@@`.
pub open spec fn is_hunk_header(line: Seq<char>) -> bool {
    &&& line.len() >= 2
    &&& line[0] == '@'
    &&& line[1] == '@'
    &&& line[line.len() - 2] == '@'
    &&& line[line.len() - 1] == '@'
}

/// The marker of a body line: its first character, or a space for an empty line.
pub open spec fn marker_of(line: Seq<char>) -> char {
    if line.len() == 0 {
        ' '
    } else {
        line[0]
    }
}

/// The text of a body line after its marker.
pub open spec fn content_of(line: Seq<char>) -> Seq<char> {
    if line.len() == 0 {
        line
    } else {
        line.drop_first()
    }
}

/// Where a pass over the lines stands: whether a hunk header has been seen,
/// the rows built so far, the removals and additions of the current change
/// block that still owe a filler row on the other side, and the next line
/// number of each side.
pub struct ParseState {
    pub started: bool,
    pub old: Seq<LineView>,
    pub new: Seq<LineView>,
    pub additions: nat,
    pub removals: nat,
    pub old_number: nat,
    pub new_number: nat,
}

pub open spec fn initial_state() -> ParseState {
    ParseState {
        started: false,
        old: Seq::empty(),
        new: Seq::empty(),
        additions: 0,
        removals: 0,
        old_number: 1,
        new_number: 1,
    }
}

/// Pads each side with the filler rows that the pending block owes it.
pub open spec fn flush(st: ParseState) -> ParseState {
    ParseState {
        old: st.old + blanks(st.additions),
        new: st.new + blanks(st.removals),
        additions: 0,
        removals: 0,
        ..st
    }
}

/// The effect of one line of the diff text.
pub open spec fn step(st: ParseState, line: Seq<char>) -> ParseState {
    if is_hunk_header(line) {
        ParseState { started: true, ..st }
    } else if !st.started {
        st
    } else {
        let content = content_of(line);
        let marker = marker_of(line);
        if marker == '+' {
            ParseState {
                new: st.new.push(
                    LineView {
                        content,
                        kind: DiffKind::Addition,
                        line_number: Some(st.new_number),
                    },
                ),
                new_number: st.new_number + 1,
                removals: if st.removals > 0 {
                    (st.removals - 1) as nat
                } else {
                    st.removals
                },
                additions: if st.removals > 0 {
                    st.additions
                } else {
                    st.additions + 1
                },
                ..st
            }
        } else if marker == '-' {
            ParseState {
                old: st.old.push(
                    LineView {
                        content,
                        kind: DiffKind::Removal,
                        line_number: Some(st.old_number),
                    },
                ),
                old_number: st.old_number + 1,
                removals: st.removals + 1,
                ..st
            }
        } else {
            let f = flush(st);
            ParseState {
                old: f.old.push(
                    LineView {
                        content,
                        kind: DiffKind::Neutral,
                        line_number: Some(f.old_number),
                    },
                ),
                new: f.new.push(
                    LineView {
                        content,
                        kind: DiffKind::Neutral,
                        line_number: Some(f.new_number),
                    },
                ),
                old_number: f.old_number + 1,
                new_number: f.new_number + 1,
                ..f
            }
        }
    }
}

/// The state after a pass over `lines`, first to last.
pub open spec fn run(lines: Seq<Seq<char>>) -> ParseState
    decreases lines.len(),
{
    if lines.len() == 0 {
        initial_state()
    } else {
        step(run(lines.drop_last()), lines.last())
    }
}

/// The two columns once the lines are all read: the pending block is padded.
pub open spec fn finish_state(st: ParseState) -> DiffView {
    let f = flush(st);
    DiffView { old: f.old, new: f.new }
}

/// The columns built from a sequence of lines.
pub open spec fn parse_lines(lines: Seq<Seq<char>>) -> DiffView {
    finish_state(run(lines))
}

/// The columns built from a diff text.
pub open spec fn parse_model(text: Seq<char>) -> DiffView {
    parse_lines(split_lines(text))
}

/// Every counter of the state is at most `bound`.
pub open spec fn counters_within(st: ParseState, bound: nat) -> bool {
    &&& st.additions <= bound
    &&& st.removals <= bound
    &&& st.old_number <= bound
    &&& st.new_number <= bound
}

/// Before the first hunk header nothing has been built.
pub open spec fn untouched(st: ParseState) -> bool {
    !st.started ==> st == initial_state()
}

/// A text of `n` characters has between 1 and `n + 1` lines.
pub proof fn lemma_split_lines_len(text: Seq<char>)
    ensures
        1 <= split_lines(text).len() <= text.len() + 1,
    decreases text.len(),
{
    if text.len() > 0 {
        lemma_split_lines_len(text.drop_last());
    }
}

/// Once started, no counter exceeds the number of lines read.
pub proof fn lemma_run_bounds(lines: Seq<Seq<char>>)
    ensures
        untouched(run(lines)),
        run(lines).started ==> counters_within(run(lines), lines.len()),
    decreases lines.len(),
{
    if lines.len() > 0 {
        lemma_run_bounds(lines.drop_last());
    }
}

/// Reads a unified diff one line at a time and builds the two aligned columns.
pub struct DiffParser {
    started: bool,
    old_lines: Vec<DiffLine>,
    new_lines: Vec<DiffLine>,
    additions: usize,
    removals: usize,
    old_number: usize,
    new_number: usize,
}

impl View for DiffParser {
    type V = ParseState;

    closed spec fn view(&self) -> ParseState {
        ParseState {
            started: self.started,
            old: lines_view(self.old_lines@),
            new: lines_view(self.new_lines@),
            additions: self.additions as nat,
            removals: self.removals as nat,
            old_number: self.old_number as nat,
            new_number: self.new_number as nat,
        }
    }
}

fn is_header(line: &[char]) -> (r: bool)
    ensures
        r == is_hunk_header(line@),
{
    let n = line.len();
    n >= 2 && line[0] == '@' && line[1] == '@' && line[n - 2] == '@' && line[n - 1] == '@'
}

impl DiffParser {
    pub fn new() -> (r: DiffParser)
        ensures
            r@ == initial_state(),
    {
        let r = DiffParser {
            started: false,
            old_lines: Vec::new(),
            new_lines: Vec::new(),
            additions: 0,
            removals: 0,
            old_number: 1,
            new_number: 1,
        };
        assert(r@.old =~= Seq::empty());
        assert(r@.new =~= Seq::empty());
        r
    }

    /// Appends the filler rows that the pending change block owes each side.
    fn flush(&mut self)
        ensures
            final(self)@ == flush(old(self)@),
    {
        let ghost start = self@;
        let mut k: usize = 0;
        while k < self.removals
            invariant
                k <= self.removals,
                self.removals == start.removals,
                self@ == (ParseState { new: start.new + blanks(k as nat), ..start }),
            decreases self.removals - k,
        {
            let ghost before = self.new_lines@;
            self.new_lines.push(DiffLine::blank());
            k = k + 1;
            assert(lines_view(self.new_lines@) =~= lines_view(before).push(blank_view()));
            assert(start.new + blanks(k as nat) =~= (start.new + blanks((k - 1) as nat)).push(
                blank_view(),
            ));
        }
        let ghost padded = self@;
        let mut k: usize = 0;
        while k < self.additions
            invariant
                k <= self.additions,
                self.additions == padded.additions,
                self@ == (ParseState { old: padded.old + blanks(k as nat), ..padded }),
            decreases self.additions - k,
        {
            let ghost before = self.old_lines@;
            self.old_lines.push(DiffLine::blank());
            k = k + 1;
            assert(lines_view(self.old_lines@) =~= lines_view(before).push(blank_view()));
            assert(padded.old + blanks(k as nat) =~= (padded.old + blanks((k - 1) as nat)).push(
                blank_view(),
            ));
        }
        self.removals = 0;
        self.additions = 0;
    }

    /// Takes in one line of the diff text (without its newline).
    pub fn feed_line(&mut self, line: &[char])
        requires
            old(self)@.started ==> counters_within(old(self)@, (usize::MAX - 1) as nat),
        ensures
            final(self)@ == step(old(self)@, line@),
    {
        if is_header(line) {
            self.started = true;
            return;
        }
        if !self.started {
            return;
        }
        let marker = if line.len() == 0 {
            ' '
        } else {
            line[0]
        };
        let content = if line.len() == 0 {
            String::new()
        } else {
            string_from_chars(line, 1)
        };
        assert(content@ =~= content_of(line@));
        let ghost st = self@;
        if marker == '+' {
            self.new_lines.push(
                DiffLine::new(content, DiffKind::Addition, Some(self.new_number)),
            );
            self.new_number = self.new_number + 1;
            if self.removals > 0 {
                self.removals = self.removals - 1;
            } else {
                self.additions = self.additions + 1;
            }
            assert(self@.new =~= step(st, line@).new);
        } else if marker == '-' {
            self.old_lines.push(DiffLine::new(content, DiffKind::Removal, Some(self.old_number)));
            self.old_number = self.old_number + 1;
            self.removals = self.removals + 1;
            assert(self@.old =~= step(st, line@).old);
        } else {
            self.flush();
            let ghost f = self@;
            let copy = content.clone();
            self.old_lines.push(DiffLine::new(copy, DiffKind::Neutral, Some(self.old_number)));
            self.new_lines.push(DiffLine::new(content, DiffKind::Neutral, Some(self.new_number)));
            self.old_number = self.old_number + 1;
            self.new_number = self.new_number + 1;
            assert(self@.old =~= step(st, line@).old);
            assert(self@.new =~= step(st, line@).new);
        }
    }

    /// Ends the pass: pads the pending block and hands out the columns.
    pub fn finish(self) -> (r: Diff)
        ensures
            r@ == finish_state(self@),
    {
        let mut p = self;
        p.flush();
        Diff::from_columns(p.old_lines, p.new_lines)
    }
}

impl Diff {
    /// Builds the two aligned columns from the text of a unified diff.
    pub fn parse_diff(diff_string: &str) -> (r: Diff)
        requires
            diff_string@.len() < usize::MAX,
        ensures
            r@ == parse_model(diff_string@),
            r@.old.len() == r@.new.len(),
    {
        let ghost text = diff_string@;
        let mut parser = DiffParser::new();
        let mut line: Vec<char> = Vec::new();
        let ghost mut k: int = 0;
        for c in it: diff_string.chars()
            invariant
                it.seq() == text,
                k == it.index(),
                0 <= k <= text.len() < usize::MAX,
                parser@ == run(split_lines(text.take(k)).drop_last()),
                line@ == split_lines(text.take(k)).last(),
        {
            let ghost lines = split_lines(text.take(k));
            proof {
                lemma_split_lines_len(text.take(k));
                lemma_run_bounds(lines.drop_last());
                assert(text.take(k + 1).drop_last() =~= text.take(k));
            }
            if c == '\n' {
                parser.feed_line(line.as_slice());
                line = Vec::new();
                proof {
                    assert(lines =~= lines.drop_last().push(lines.last()));
                    assert(split_lines(text.take(k + 1)).drop_last() =~= lines);
                    assert(line@ =~= Seq::<char>::empty());
                }
            } else {
                line.push(c);
                proof {
                    assert(split_lines(text.take(k + 1)).drop_last() =~= lines.drop_last());
                }
            }
            proof {
                k = k + 1;
            }
        }
        proof {
            let lines = split_lines(text);
            assert(text.take(k) =~= text);
            lemma_split_lines_len(text);
            lemma_run_bounds(lines.drop_last());
            assert(lines =~= lines.drop_last().push(lines.last()));
        }
        parser.feed_line(line.as_slice());
        let r = parser.finish();
        proof {
            lemma_parse_columns_align(diff_string@);
        }
        r
    }
}

/// Builds the two aligned columns from the text of a unified diff.
pub fn get_diff(diff_string: &str) -> (r: Diff)
    requires
        diff_string@.len() < usize::MAX,
    ensures
        r@ == parse_model(diff_string@),
        r@.old.len() == r@.new.len(),
{
    Diff::parse_diff(diff_string)
}

/// The left column and the right column of a state differ in length by
/// exactly the filler rows that the pending block still owes.
pub open spec fn balanced(st: ParseState) -> bool {
    st.old.len() + st.additions == st.new.len() + st.removals
}

pub proof fn lemma_run_balanced(lines: Seq<Seq<char>>)
    ensures
        balanced(run(lines)),
    decreases lines.len(),
{
    if lines.len() > 0 {
        lemma_run_balanced(lines.drop_last());
    }
}

/// Whatever the text, both columns of the parsed diff have the same number of rows.
pub proof fn lemma_parse_columns_align(text: Seq<char>)
    ensures
        parse_model(text).old.len() == parse_model(text).new.len(),
{
    lemma_run_balanced(split_lines(text));
}

} // verus!
