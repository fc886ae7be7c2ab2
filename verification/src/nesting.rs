//! How the tags around the header rows sit among the rows of a layout.

use crate::layout::{filler_items, gap_items, header_close_items, header_open_items, run_end, Item};
use crate::sheet::{HeaderRegion, Sheet};
use vstd::prelude::*;

verus! {

/// What is open after some elements: the header rows, and a row.
pub struct Nest {
    pub header: bool,
    pub row: bool,
}

impl Item {
    /// What is open after this element, when `before` was open before it.
    pub open spec fn enter(self, before: Nest) -> Nest {
        match self {
            Item::HeaderOpen => Nest { header: true, row: before.row },
            Item::HeaderClose => Nest { header: false, row: before.row },
            Item::RowStart { .. } => Nest { header: before.header, row: true },
            Item::RowEnd { .. } => Nest { header: before.header, row: false },
            _ => before,
        }
    }

    /// Whether this element may stand where `before` is open: the tags
    /// around the header rows stand between rows, the opening one where the
    /// header rows are not open and the closing one where they are; rows do
    /// not lie in rows; cells lie in rows.
    pub open spec fn fits(self, before: Nest) -> bool {
        match self {
            Item::HeaderOpen => !before.header && !before.row,
            Item::HeaderClose => before.header && !before.row,
            Item::RowStart { .. } => !before.row,
            Item::EmptyRows { .. } => !before.row,
            Item::RowEnd { .. } => before.row,
            Item::Blank { .. } => before.row,
            Item::CoveredBlank { .. } => before.row,
            Item::Cell { .. } => before.row,
        }
    }

    /// Whether this element is a row, or a run of rows, that begins at `row`.
    pub open spec fn begins_at(self, row: int) -> bool {
        match self {
            Item::EmptyRows { row: r, .. } => r == row,
            Item::RowStart { row: r } => r == row,
            _ => false,
        }
    }

    /// Whether this element ends a row, or a run of rows, at `row`.
    pub open spec fn ends_at(self, row: int) -> bool {
        match self {
            Item::EmptyRows { row: r, count, .. } => r + count - 1 == row,
            Item::RowEnd { row: r } => r == row,
            _ => false,
        }
    }
}

/// What is open after `items`, when `start` was open before them.
pub open spec fn nest_after(start: Nest, items: Seq<Item>) -> Nest
    decreases items.len(),
{
    if items.len() == 0 {
        start
    } else {
        items.last().enter(nest_after(start, items.drop_last()))
    }
}

/// Whether each of `items` stands where it may, when `start` was open before
/// them.
pub open spec fn nested_from(start: Nest, items: Seq<Item>) -> bool
    decreases items.len(),
{
    if items.len() == 0 {
        true
    } else {
        nested_from(start, items.drop_last()) && items.last().fits(
            nest_after(start, items.drop_last()),
        )
    }
}

/// How often the header rows are opened among `items`.
pub open spec fn opens_of(items: Seq<Item>) -> int
    decreases items.len(),
{
    if items.len() == 0 {
        0
    } else {
        opens_of(items.drop_last()) + if items.last() is HeaderOpen {
            1int
        } else {
            0int
        }
    }
}

/// How often the header rows are closed among `items`.
pub open spec fn closes_of(items: Seq<Item>) -> int
    decreases items.len(),
{
    if items.len() == 0 {
        0
    } else {
        closes_of(items.drop_last()) + if items.last() is HeaderClose {
            1int
        } else {
            0int
        }
    }
}

/// Whether the tags around the header rows stand at the rows `first` and
/// `last`: each opening tag directly before a row, or a run of rows, that
/// begins at `first`, and each closing tag directly after one that ends at
/// `last`.
pub open spec fn brackets_placed(items: Seq<Item>, first: int, last: int) -> bool {
    forall|k: int|
        0 <= k < items.len() ==> {
            &&& (#[trigger] items[k]) is HeaderOpen ==> k + 1 < items.len() && items[k
                + 1].begins_at(first)
            &&& items[k] is HeaderClose ==> k >= 1 && items[k - 1].ends_at(last)
        }
}

/// What is open after two runs of elements, and whether both are well
/// nested.
pub proof fn lemma_nest_concat(start: Nest, a: Seq<Item>, b: Seq<Item>)
    ensures
        nest_after(start, a + b) == nest_after(nest_after(start, a), b),
        nested_from(start, a + b) == (nested_from(start, a) && nested_from(
            nest_after(start, a),
            b,
        )),
        opens_of(a + b) == opens_of(a) + opens_of(b),
        closes_of(a + b) == closes_of(a) + closes_of(b),
    decreases b.len(),
{
    if b.len() == 0 {
        assert(a + b == a);
    } else {
        lemma_nest_concat(start, a, b.drop_last());
        assert((a + b).drop_last() == a + b.drop_last());
        assert((a + b).last() == b.last());
    }
}

/// One element, and none.
pub proof fn lemma_nest_one(start: Nest, item: Item)
    ensures
        nest_after(start, seq![item]) == item.enter(start),
        nested_from(start, seq![item]) == item.fits(start),
        opens_of(seq![item]) == if item is HeaderOpen {
            1int
        } else {
            0int
        },
        closes_of(seq![item]) == if item is HeaderClose {
            1int
        } else {
            0int
        },
        nest_after(start, Seq::empty()) == start,
        nested_from(start, Seq::empty()),
        opens_of(Seq::empty()) == 0,
        closes_of(Seq::empty()) == 0,
{
    reveal_with_fuel(nest_after, 2);
    reveal_with_fuel(nested_from, 2);
    reveal_with_fuel(opens_of, 2);
    reveal_with_fuel(closes_of, 2);
    assert(seq![item].drop_last() == Seq::<Item>::empty());
}

/// Among well nested elements the header rows are closed as often as they
/// are opened, but for the one time that they are left open or were open
/// before.
pub proof fn lemma_nest_balance(start: Nest, items: Seq<Item>)
    requires
        nested_from(start, items),
    ensures
        opens_of(items) + (if start.header {
            1int
        } else {
            0int
        }) == closes_of(items) + (if nest_after(start, items).header {
            1int
        } else {
            0int
        }),
    decreases items.len(),
{
    if items.len() > 0 {
        lemma_nest_balance(start, items.drop_last());
    }
}

/// Two runs of elements with their tags in place have them in place when
/// one follows the other.
pub proof fn lemma_placed_concat(a: Seq<Item>, b: Seq<Item>, first: int, last: int)
    requires
        brackets_placed(a, first, last),
        brackets_placed(b, first, last),
    ensures
        brackets_placed(a + b, first, last),
{
    let ab = a + b;
    assert forall|k: int| 0 <= k < ab.len() implies {
        &&& (#[trigger] ab[k]) is HeaderOpen ==> k + 1 < ab.len() && ab[k + 1].begins_at(first)
        &&& ab[k] is HeaderClose ==> k >= 1 && ab[k - 1].ends_at(last)
    } by {
        if k < a.len() {
            assert(ab[k] == a[k]);
            if a[k] is HeaderOpen {
                assert(ab[k + 1] == a[k + 1]);
            }
            if a[k] is HeaderClose {
                assert(ab[k - 1] == a[k - 1]);
            }
        } else {
            let j = k - a.len();
            assert(ab[k] == b[j]);
            if b[j] is HeaderOpen {
                assert(ab[k + 1] == b[j + 1]);
            }
            if b[j] is HeaderClose {
                assert(ab[k - 1] == b[j - 1]);
            }
        }
    }
}

/// The tag that opens the header rows, with the row element that follows
/// it.
pub proof fn lemma_open_then(header: HeaderRegion, row: int, next: Item, start: Nest)
    requires
        header.wf(),
        !start.row,
        start.header == header.open_before(row),
        next.begins_at(row),
        !(next is HeaderOpen),
        !(next is HeaderClose),
        next.fits(Nest { header: header.open_in(row), row: false }),
    ensures
        ({
            let items = header_open_items(header, row) + seq![next];
            &&& nested_from(start, items)
            &&& nest_after(start, items) == next.enter(
                Nest { header: header.open_in(row), row: false },
            )
            &&& opens_of(items) == if header.spec_row_opens_at(row) {
                1int
            } else {
                0int
            }
            &&& closes_of(items) == 0
            &&& header.rows matches Some(r) ==> brackets_placed(
                items,
                r.row as int,
                r.to_row as int,
            )
            &&& header.rows is None ==> brackets_placed(items, 0, 0)
        }),
{
    let open = header_open_items(header, row);
    let items = open + seq![next];
    lemma_nest_one(start, Item::HeaderOpen);
    lemma_nest_one(nest_after(start, open), next);
    lemma_nest_concat(start, open, seq![next]);
    if header.spec_row_opens_at(row) {
        assert(items[0] == Item::HeaderOpen);
        assert(items[1] == next);
    } else {
        assert(items[0] == next);
    }
}

/// The row element that ends at `row`, with the tag that closes the header
/// rows after it.
pub proof fn lemma_then_close(header: HeaderRegion, row: int, last: Item, start: Nest)
    requires
        header.wf(),
        last.ends_at(row),
        !(last is HeaderOpen),
        !(last is HeaderClose),
        last.fits(start),
        last.enter(start) == (Nest { header: header.open_in(row), row: false }),
    ensures
        ({
            let items = seq![last] + header_close_items(header, row);
            &&& nested_from(start, items)
            &&& nest_after(start, items) == Nest { header: header.open_before(row + 1), row: false }
            &&& opens_of(items) == 0
            &&& closes_of(items) == if header.spec_row_closes_at(row) {
                1int
            } else {
                0int
            }
            &&& header.rows matches Some(r) ==> brackets_placed(
                items,
                r.row as int,
                r.to_row as int,
            )
            &&& header.rows is None ==> brackets_placed(items, 0, 0)
        }),
{
    let close = header_close_items(header, row);
    let items = seq![last] + close;
    lemma_nest_one(start, last);
    lemma_nest_one(last.enter(start), Item::HeaderClose);
    lemma_nest_concat(start, seq![last], close);
    assert(items[0] == last);
    if header.spec_row_closes_at(row) {
        assert(items[1] == Item::HeaderClose);
    }
}

/// Whether the header rows begin in the rows from `from` up to `to`.
pub open spec fn opens_within(header: HeaderRegion, from: int, to: int) -> bool {
    header.rows matches Some(r) && from <= r.row < to
}

/// Whether the header rows end in the rows from `from` up to `to`.
pub open spec fn closes_within(header: HeaderRegion, from: int, to: int) -> bool {
    header.rows matches Some(r) && from <= r.to_row < to
}

/// The tags with which nothing is out of place where there are no header
/// rows.
pub open spec fn placed(items: Seq<Item>, header: HeaderRegion) -> bool {
    match header.rows {
        Some(r) => brackets_placed(items, r.row as int, r.to_row as int),
        None => brackets_placed(items, 0, 0),
    }
}

/// The runs that fill a gap are well nested: the header rows are opened
/// where they begin in the gap and closed where they end in it, each once
/// and in place.
pub proof fn lemma_gap_nest(header: HeaderRegion, from: int, to: int, columns: int, start: Nest)
    requires
        header.wf(),
        !start.row,
        from < to ==> start.header == header.open_before(from),
    ensures
        ({
            let items = gap_items(header, from, to, columns);
            &&& nested_from(start, items)
            &&& nest_after(start, items) == if from < to {
                Nest { header: header.open_before(to), row: false }
            } else {
                start
            }
            &&& opens_of(items) == if from < to && opens_within(header, from, to) {
                1int
            } else {
                0int
            }
            &&& closes_of(items) == if from < to && closes_within(header, from, to) {
                1int
            } else {
                0int
            }
            &&& placed(items, header)
        }),
    decreases to - from,
{
    if from < to {
        let stop = run_end(header, from, to);
        let run = Item::EmptyRows { row: from, count: stop - from, columns };
        let open = header_open_items(header, from);
        let close = header_close_items(header, stop - 1);
        let rest = gap_items(header, stop, to, columns);
        let first = open + seq![run];
        lemma_open_then(header, from, run, start);
        let mid = nest_after(start, first);
        // the closing tag after the run
        lemma_nest_one(mid, Item::HeaderClose);
        lemma_nest_concat(start, first, close);
        let after = nest_after(start, first + close);
        assert(after == Nest { header: header.open_before(stop), row: false });
        lemma_gap_nest(header, stop, to, columns, after);
        lemma_nest_concat(start, first + close, rest);
        assert(placed(first + close, header)) by {
            let items = first + close;
            if header.spec_row_closes_at(stop - 1) {
                let n = first.len() as int;
                assert(items[n] == Item::HeaderClose);
                assert(items[n - 1] == run);
            }
            assert forall|k: int| 0 <= k < items.len() implies {
                &&& (#[trigger] items[k]) is HeaderOpen ==> k + 1 < items.len() && items[k
                    + 1].begins_at(header.rows->0.row as int)
                &&& items[k] is HeaderClose ==> k >= 1 && items[k - 1].ends_at(
                    header.rows->0.to_row as int,
                )
            } by {
                if k < first.len() {
                    assert(items[k] == first[k]);
                    if first[k] is HeaderOpen {
                        assert(items[k + 1] == first[k + 1]);
                    }
                }
            }
        }
        match header.rows {
            Some(r) => lemma_placed_concat(first + close, rest, r.row as int, r.to_row as int),
            None => lemma_placed_concat(first + close, rest, 0, 0),
        }
        assert(gap_items(header, from, to, columns) == first + close + rest);
    } else {
        lemma_nest_one(start, Item::HeaderOpen);
    }
}

/// Elements without tags around the header rows have none out of place.
pub proof fn lemma_placed_plain(items: Seq<Item>, header: HeaderRegion)
    requires
        forall|k: int|
            0 <= k < items.len() ==> !((#[trigger] items[k]) is HeaderOpen) && !(items[k]
                is HeaderClose),
    ensures
        placed(items, header),
{
}

/// The blank cells after a populated cell lie in its row and touch nothing
/// else.
pub proof fn lemma_filler_nest(total: int, run: int, start: Nest, header: HeaderRegion)
    requires
        start.row,
    ensures
        nested_from(start, filler_items(total, run)),
        nest_after(start, filler_items(total, run)) == start,
        opens_of(filler_items(total, run)) == 0,
        closes_of(filler_items(total, run)) == 0,
        placed(filler_items(total, run), header),
{
    let covered = if run < total {
        run
    } else {
        total
    };
    let a = if covered > 0 {
        seq![Item::CoveredBlank { count: covered }]
    } else {
        Seq::empty()
    };
    let b = if total - covered > 0 {
        seq![Item::Blank { count: total - covered }]
    } else {
        Seq::empty()
    };
    lemma_nest_one(start, Item::CoveredBlank { count: covered });
    lemma_nest_one(start, Item::Blank { count: total - covered });
    lemma_nest_concat(start, a, b);
    lemma_placed_plain(a + b, header);
}

impl Sheet {
    /// What is open before the cell `i` is written: inside a row, the row,
    /// within the header rows where it is one of them; between rows, the
    /// header rows where they go on after the row before.
    pub open spec fn nest_at(&self, i: int) -> Nest {
        if 0 < i < self.cells@.len() && !self.starts_row(i) {
            Nest { header: self.header.open_in(self.cells@[i].row as int), row: true }
        } else {
            Nest {
                header: i > 0 && self.header.open_before(self.cells@[i - 1].row + 1),
                row: false,
            }
        }
    }

    /// How often the header rows have been opened when the first `n` cells
    /// are written: once, if they begin no later than the row of the last of
    /// these cells.
    pub open spec fn opened_upto(&self, n: int) -> int {
        if n > 0 && self.header.rows is Some && self.header.rows->0.row <= self.cells@[n
            - 1].row {
            1
        } else {
            0
        }
    }

    /// The head of the block of the cell `i` is well nested.
    pub proof fn lemma_head_nest(&self, i: int)
        requires
            self.wf(),
            0 <= i < self.cells@.len(),
        ensures
            nested_from(self.nest_at(i), self.block_head(i)),
            nest_after(self.nest_at(i), self.block_head(i)) == (Nest {
                header: self.header.open_in(self.cells@[i].row as int),
                row: true,
            }),
            self.opened_upto(i) + opens_of(self.block_head(i)) == self.opened_upto(i + 1),
            placed(self.block_head(i), self.header),
    {
        let c = self.cells@[i];
        let row = c.row as int;
        let start = self.nest_at(i);
        let columns = self.extent.1 as int;
        if self.starts_row(i) {
            let gap = gap_items(self.header, self.gap_start(i), row, columns);
            let open = header_open_items(self.header, row);
            let begin = Item::RowStart { row };
            let lead = if c.col > 0 {
                seq![Item::Blank { count: c.col as int }]
            } else {
                Seq::empty()
            };
            if i > 0 {
                self.lemma_bracket_steady(i);
                self.lemma_rows_ascend(i - 1, i);
                if let Some(h) = self.header.rows {
                    let prev = self.cells@[i - 1].row as int;
                    if prev < h.row && h.row < row && h.row < self.gap_start(i) {
                        self.lemma_absorbed_row(i, h.row as int);
                    }
                }
            }
            lemma_gap_nest(self.header, self.gap_start(i), row, columns, start);
            let mid = nest_after(start, gap);
            assert(mid == Nest { header: self.header.open_before(row), row: false });
            lemma_open_then(self.header, row, begin, mid);
            let inner = nest_after(mid, open + seq![begin]);
            lemma_nest_one(inner, Item::Blank { count: c.col as int });
            lemma_placed_plain(lead, self.header);
            lemma_nest_concat(start, gap, open + seq![begin]);
            lemma_nest_concat(start, gap + (open + seq![begin]), lead);
            match self.header.rows {
                Some(r) => {
                    lemma_placed_concat(gap, open + seq![begin], r.row as int, r.to_row as int);
                    lemma_placed_concat(
                        gap + (open + seq![begin]),
                        lead,
                        r.row as int,
                        r.to_row as int,
                    );
                },
                None => {
                    lemma_placed_concat(gap, open + seq![begin], 0, 0);
                    lemma_placed_concat(gap + (open + seq![begin]), lead, 0, 0);
                },
            }
            assert(self.block_head(i) == gap + (open + seq![begin]) + lead);
        } else {
            lemma_nest_one(start, Item::HeaderOpen);
            lemma_placed_plain(self.block_head(i), self.header);
        }
    }

    /// The cell `i` and the blank cells after it lie in the row.
    pub proof fn lemma_body_nest(&self, i: int, start: Nest)
        requires
            0 <= i < self.cells@.len(),
            start.row,
        ensures
            nested_from(start, self.block_body(i)),
            nest_after(start, self.block_body(i)) == start,
            opens_of(self.block_body(i)) == 0,
            placed(self.block_body(i), self.header),
    {
        let cell = Item::Cell { index: i, covered: self.hidden(i).0 };
        let fill = filler_items(self.forward(i) - 1, self.hidden(i).1 as int);
        lemma_nest_one(start, cell);
        lemma_filler_nest(self.forward(i) - 1, self.hidden(i).1 as int, start, self.header);
        lemma_nest_concat(start, seq![cell], fill);
        lemma_placed_plain(seq![cell] + fill, self.header);
    }

    /// The tail of the block of the cell `i` is well nested.
    pub proof fn lemma_tail_nest(&self, i: int)
        requires
            self.wf(),
            0 <= i < self.cells@.len(),
        ensures
            ({
                let start = Nest {
                    header: self.header.open_in(self.cells@[i].row as int),
                    row: true,
                };
                &&& nested_from(start, self.block_tail(i))
                &&& nest_after(start, self.block_tail(i)) == self.nest_at(i + 1)
                &&& opens_of(self.block_tail(i)) == 0
                &&& placed(self.block_tail(i), self.header)
            }),
    {
        let row = self.cells@[i].row as int;
        let start = Nest { header: self.header.open_in(row), row: true };
        if self.ends_row(i) {
            lemma_then_close(self.header, row, Item::RowEnd { row }, start);
        } else {
            lemma_nest_one(start, Item::HeaderOpen);
            lemma_placed_plain(self.block_tail(i), self.header);
        }
    }

    /// The layout of the first `n` cells is well nested, with the tags around
    /// the header rows in place, and the header rows are opened once as soon
    /// as their first row is reached.
    pub proof fn lemma_layout_nest(&self, n: int)
        requires
            self.wf(),
            0 <= n <= self.cells@.len(),
        ensures
            nested_from(Nest { header: false, row: false }, self.layout_upto(n)),
            nest_after(Nest { header: false, row: false }, self.layout_upto(n)) == self.nest_at(n),
            opens_of(self.layout_upto(n)) == self.opened_upto(n),
            placed(self.layout_upto(n), self.header),
        decreases n,
    {
        let outside = Nest { header: false, row: false };
        if n > 0 {
            let i = n - 1;
            self.lemma_layout_nest(i);
            let before = self.layout_upto(i);
            let head = self.block_head(i);
            let body = self.block_body(i);
            let tail = self.block_tail(i);
            let inner = Nest { header: self.header.open_in(self.cells@[i].row as int), row: true };
            self.lemma_head_nest(i);
            self.lemma_body_nest(i, inner);
            self.lemma_tail_nest(i);
            lemma_nest_concat(outside, before, head);
            lemma_nest_concat(outside, before + head, body);
            lemma_nest_concat(outside, before + head + body, tail);
            match self.header.rows {
                Some(r) => {
                    lemma_placed_concat(before, head, r.row as int, r.to_row as int);
                    lemma_placed_concat(before + head, body, r.row as int, r.to_row as int);
                    lemma_placed_concat(
                        before + head + body,
                        tail,
                        r.row as int,
                        r.to_row as int,
                    );
                },
                None => {
                    lemma_placed_concat(before, head, 0, 0);
                    lemma_placed_concat(before + head, body, 0, 0);
                    lemma_placed_concat(before + head + body, tail, 0, 0);
                },
            }
            assert(self.layout_upto(n) == before + head + body + tail);
        } else {
            lemma_nest_one(outside, Item::HeaderOpen);
            lemma_placed_plain(self.layout_upto(0), self.header);
        }
    }

    /// Header well-nesting. In the layout of a sheet every element stands
    /// where it may, and nothing is left open at the end. Where the sheet has
    /// header rows, they are opened exactly once, directly before the row or
    /// run of empty rows that begins at their first row, and closed exactly
    /// once, directly after the row or run that ends at their last row;
    /// where it has none, no such tag is written.
    pub proof fn lemma_header_well_nested(&self)
        requires
            self.wf(),
        ensures
            nested_from(Nest { header: false, row: false }, self.layout()),
            nest_after(Nest { header: false, row: false }, self.layout()) == (Nest {
                header: false,
                row: false,
            }),
            placed(self.layout(), self.header),
            self.header.rows is Some ==> opens_of(self.layout()) == 1 && closes_of(self.layout())
                == 1,
            self.header.rows is None ==> opens_of(self.layout()) == 0 && closes_of(self.layout())
                == 0,
    {
        let n = self.cells@.len() as int;
        self.lemma_layout_nest(n);
        if let Some(h) = self.header.rows {
            self.lemma_written_bound(h.row as int);
            self.lemma_written_bound(h.to_row as int);
        }
        lemma_nest_balance(Nest { header: false, row: false }, self.layout());
    }
}

} // verus!
