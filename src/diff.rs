use vstd::prelude::*;

verus! {

/// How a row of one column came to be.
#[derive(Clone, Copy, Debug, PartialEq, Eq, Structural)]
pub enum DiffKind {
    Addition,
    Removal,
    Neutral,
    Blank,
}

impl DiffKind {
    /// The marker shown in front of a row of this kind.
    pub open spec fn marker(self) -> Seq<char> {
        match self {
            DiffKind::Addition => seq!['+'],
            DiffKind::Removal => seq!['-'],
            DiffKind::Neutral => seq![' '],
            DiffKind::Blank => seq![' '],
        }
    }

    pub fn value(&self) -> (r: &'static str)
        ensures
            r@ == self.marker(),
    {
        proof {
            reveal_strlit("+");
            reveal_strlit("-");
            reveal_strlit(" ");
        }
        match self {
            DiffKind::Addition => "+",
            DiffKind::Removal => "-",
            DiffKind::Neutral => " ",
            DiffKind::Blank => " ",
        }
    }
}


/// What one row of a column holds, as a mathematical value.
pub struct LineView {
    pub content: Seq<char>,
    pub kind: DiffKind,
    pub line_number: Option<nat>,
}

/// The filler row that keeps the two columns aligned.
pub open spec fn blank_view() -> LineView {
    LineView { content: Seq::empty(), kind: DiffKind::Blank, line_number: None }
}

/// `n` filler rows.
pub open spec fn blanks(n: nat) -> Seq<LineView> {
    Seq::new(n, |i: int| blank_view())
}

/// One row of a column: its text without the marker, its kind, and its line
/// number in the file it comes from (none for a filler row).
#[derive(Clone, Debug)]
pub struct DiffLine {
    content: String,
    kind: DiffKind,
    line_number: Option<usize>,
}

pub open spec fn number_view(n: Option<usize>) -> Option<nat> {
    match n {
        Some(k) => Some(k as nat),
        None => None,
    }
}

impl View for DiffLine {
    type V = LineView;

    closed spec fn view(&self) -> LineView {
        LineView {
            content: self.content@,
            kind: self.kind,
            line_number: number_view(self.line_number),
        }
    }
}

impl DiffLine {
    pub(crate) fn new(content: String, kind: DiffKind, line_number: Option<usize>) -> (r: DiffLine)
        ensures
            r@ == (LineView { content: content@, kind, line_number: number_view(line_number) }),
    {
        DiffLine { content, kind, line_number }
    }

    pub(crate) fn blank() -> (r: DiffLine)
        ensures
            r@ == blank_view(),
    {
        DiffLine::new(String::new(), DiffKind::Blank, None)
    }

    pub fn content(&self) -> (r: &str)
        ensures
            r@ == self@.content,
    {
        self.content.as_str()
    }

    pub fn kind(&self) -> (r: &DiffKind)
        ensures
            *r == self@.kind,
    {
        &self.kind
    }

    pub fn line_number(&self) -> (r: &Option<usize>)
        ensures
            number_view(*r) == self@.line_number,
    {
        &self.line_number
    }
}

/// The views of a column's rows.
pub open spec fn lines_view(lines: Seq<DiffLine>) -> Seq<LineView> {
    lines.map_values(|l: DiffLine| l@)
}

/// Both columns as mathematical values.
pub struct DiffView {
    pub old: Seq<LineView>,
    pub new: Seq<LineView>,
}

/// A diff laid out for side-by-side display: the rows of the old version of the file
/// (left) and of its new version (right).
#[derive(Clone, Debug)]
pub struct Diff {
    old_diff: Vec<DiffLine>,
    current_diff: Vec<DiffLine>,
}

impl View for Diff {
    type V = DiffView;

    closed spec fn view(&self) -> DiffView {
        DiffView { old: lines_view(self.old_diff@), new: lines_view(self.current_diff@) }
    }
}

impl Default for Diff {
    /// The diff with no rows.
    fn default() -> (r: Diff)
        ensures
            r@ == (DiffView { old: Seq::empty(), new: Seq::empty() }),
    {
        let r = Diff { old_diff: Vec::new(), current_diff: Vec::new() };
        assert(r@.old =~= Seq::<LineView>::empty());
        assert(r@.new =~= Seq::<LineView>::empty());
        r
    }
}

impl Diff {
    pub(crate) fn from_columns(old_diff: Vec<DiffLine>, current_diff: Vec<DiffLine>) -> (r: Diff)
        ensures
            r@ == (DiffView { old: lines_view(old_diff@), new: lines_view(current_diff@) }),
    {
        Diff { old_diff, current_diff }
    }

    /// The rows of the old version of the file (left column).
    pub fn old_diff(&self) -> (r: &[DiffLine])
        ensures
            lines_view(r@) == self@.old,
            self@.old.len() <= usize::MAX,
    {
        let _rows = self.old_diff.len();
        self.old_diff.as_slice()
    }

    /// The rows of the new file (right column).
    pub fn current_diff(&self) -> (r: &[DiffLine])
        ensures
            lines_view(r@) == self@.new,
            self@.new.len() <= usize::MAX,
    {
        let _rows = self.current_diff.len();
        self.current_diff.as_slice()
    }

    /// The left column, as a vector.
    pub fn diff_one(&self) -> (r: &Vec<DiffLine>)
        ensures
            lines_view(r@) == self@.old,
            self@.old.len() <= usize::MAX,
    {
        let _rows = self.old_diff.len();
        &self.old_diff
    }

    /// The right column, as a vector.
    pub fn diff_two(&self) -> (r: &Vec<DiffLine>)
        ensures
            lines_view(r@) == self@.new,
            self@.new.len() <= usize::MAX,
    {
        let _rows = self.current_diff.len();
        &self.current_diff
    }
}

/// The line number of a row, zero for a filler row.
pub open spec fn number_or_zero(l: LineView) -> nat {
    match l.line_number {
        Some(n) => n,
        None => 0,
    }
}

/// The largest line number in a column, zero when it has none.
pub open spec fn max_line_number(s: Seq<LineView>) -> nat
    decreases s.len(),
{
    if s.len() == 0 {
        0
    } else {
        let before = max_line_number(s.drop_last());
        let last = number_or_zero(s.last());
        if before >= last {
            before
        } else {
            last
        }
    }
}

/// How many decimal digits it takes to write `n`.
pub open spec fn decimal_digits(n: nat) -> nat
    decreases n,
{
    if n < 10 {
        1
    } else {
        1 + decimal_digits(n / 10)
    }
}

pub open spec fn max_nat(a: nat, b: nat) -> nat {
    if a >= b {
        a
    } else {
        b
    }
}

pub open spec fn min_nat(a: nat, b: nat) -> nat {
    if a <= b {
        a
    } else {
        b
    }
}

/// The largest line number over both columns.
pub open spec fn widest_line_number(d: DiffView) -> nat {
    max_nat(max_line_number(d.old), max_line_number(d.new))
}

/// The width of the line-number column: the digits of the largest line
/// number, at least 4 and at most 65535.
pub open spec fn line_number_width(d: DiffView) -> nat {
    min_nat(65535, max_nat(4, decimal_digits(widest_line_number(d))))
}

proof fn lemma_decimal_digits_small(n: nat)
    requires
        n >= 1,
    ensures
        decimal_digits(n) <= n,
    decreases n,
{
    if n >= 10 {
        lemma_decimal_digits_small(n / 10);
    }
}

/// The number of decimal digits of `n`.
pub fn digit_count(n: usize) -> (r: usize)
    ensures
        r == decimal_digits(n as nat),
{
    let mut count: usize = 1;
    let mut m = n;
    while m >= 10
        invariant
            count >= 1,
            m <= n,
            decimal_digits(n as nat) == count - 1 + decimal_digits(m as nat),
        decreases m,
    {
        proof {
            lemma_decimal_digits_small(n as nat);
            assert(decimal_digits(m as nat) == 1 + decimal_digits(m as nat / 10));
            assert(decimal_digits(m as nat / 10) >= 1);
        }
        m = m / 10;
        count = count + 1;
    }
    count
}

/// The largest line number among `lines`, zero when none has one.
pub fn largest_line_number(lines: &[DiffLine]) -> (r: usize)
    ensures
        r == max_line_number(lines_view(lines@)),
{
    let mut largest: usize = 0;
    let mut i: usize = 0;
    while i < lines.len()
        invariant
            i <= lines@.len(),
            largest == max_line_number(lines_view(lines@.take(i as int))),
        decreases lines@.len() - i,
    {
        let n = match lines[i].line_number() {
            Some(k) => *k,
            None => 0,
        };
        proof {
            let next = lines_view(lines@.take(i + 1));
            assert(next.drop_last() =~= lines_view(lines@.take(i as int)));
            assert(next.last() == lines@[i as int]@);
        }
        if n > largest {
            largest = n;
        }
        i = i + 1;
    }
    assert(lines@.take(i as int) =~= lines@);
    largest
}

impl Diff {
    /// The index of the last row of the longer column.
    pub fn longest_diff_len(&self) -> (r: usize)
        requires
            self@.old.len() > 0 || self@.new.len() > 0,
        ensures
            r == max_nat(self@.old.len(), self@.new.len()) - 1,
    {
        let old_len = self.old_diff.len();
        let current_len = self.current_diff.len();
        if old_len >= current_len {
            old_len - 1
        } else {
            current_len - 1
        }
    }

    /// The largest line number of the left column and of the right column.
    pub fn largest_line_number(&self) -> (r: (usize, usize))
        ensures
            r.0 == max_line_number(self@.old),
            r.1 == max_line_number(self@.new),
    {
        (largest_line_number(self.old_diff.as_slice()), largest_line_number(self.current_diff.as_slice()))
    }

    /// The width of the line-number column: the digits of the largest line
    /// number over both columns, at least 4 and at most 65535.
    pub fn largest_line_number_len(&self) -> (r: u16)
        ensures
            r == line_number_width(self@),
            4 <= r,
    {
        let (old_largest, current_largest) = self.largest_line_number();
        let largest = if old_largest >= current_largest {
            old_largest
        } else {
            current_largest
        };
        let digits = digit_count(largest);
        if digits > 65535 {
            65535
        } else if digits < 4 {
            4
        } else {
            digits as u16
        }
    }

    /// The width of the line-number column: the digits of the largest line
    /// number over both columns, at least 4 and at most 65535.
    pub fn largest_line_number_char_len(&self) -> (r: u16)
        ensures
            r == line_number_width(self@),
            4 <= r,
    {
        self.largest_line_number_len()
    }
}

} // verus!
