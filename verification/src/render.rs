//! How the text of a layout is put together from the texts of its parts.

use crate::layout::{filler_items, gap_items, header_close_items, header_open_items, run_end, Item};
use crate::markup::{
    cell_text, filler_text, fillers_text, gap_run_text, gap_text, header_close_text,
    header_open_text, item_text, render, row_head_text, row_start_text, row_tail_text,
};
use crate::sheet::{Sheet, WorkBook};
use crate::text::{lemma_append2, lemma_append_empty};
use vstd::prelude::*;

verus! {

/// The text of no elements is empty; the text of one element is its own.
pub proof fn lemma_render_one(book: &WorkBook, sheet: &Sheet, item: Item)
    ensures
        render(book, sheet, Seq::empty()) == Seq::<char>::empty(),
        render(book, sheet, seq![item]) == item_text(book, sheet, item),
{
    reveal_with_fuel(render, 2);
    assert(seq![item].drop_last() == Seq::<Item>::empty());
    assert(seq![item].last() == item);
    lemma_append_empty(item_text(book, sheet, item));
}

/// The text of two runs of elements, one after the other, is the text of
/// the first followed by the text of the second.
pub proof fn lemma_render_concat(book: &WorkBook, sheet: &Sheet, a: Seq<Item>, b: Seq<Item>)
    ensures
        render(book, sheet, a + b) == render(book, sheet, a) + render(book, sheet, b),
    decreases b.len(),
{
    if b.len() == 0 {
        assert(a + b == a);
        lemma_append_empty(render(book, sheet, a));
    } else {
        lemma_render_concat(book, sheet, a, b.drop_last());
        assert((a + b).drop_last() == a + b.drop_last());
        assert((a + b).last() == b.last());
        lemma_append2(
            render(book, sheet, a),
            render(book, sheet, b.drop_last()),
            item_text(book, sheet, b.last()),
        );
    }
}

/// The text of three runs of elements, one after the other.
pub proof fn lemma_render_concat3(
    book: &WorkBook,
    sheet: &Sheet,
    a: Seq<Item>,
    b: Seq<Item>,
    c: Seq<Item>,
)
    ensures
        render(book, sheet, a + b + c) == render(book, sheet, a) + render(book, sheet, b) + render(
            book,
            sheet,
            c,
        ),
{
    lemma_render_concat(book, sheet, a + b, c);
    lemma_render_concat(book, sheet, a, b);
}

/// The tag that opens the header rows, as text.
pub proof fn lemma_render_header_open(book: &WorkBook, sheet: &Sheet, row: int)
    ensures
        render(book, sheet, header_open_items(sheet.header, row)) == header_open_text(
            sheet.header,
            row,
        ),
{
    reveal(header_open_text);
    lemma_render_one(book, sheet, Item::HeaderOpen);
}

/// The tag that closes the header rows, as text.
pub proof fn lemma_render_header_close(book: &WorkBook, sheet: &Sheet, row: int)
    ensures
        render(book, sheet, header_close_items(sheet.header, row)) == header_close_text(
            sheet.header,
            row,
        ),
{
    reveal(header_close_text);
    lemma_render_one(book, sheet, Item::HeaderClose);
}

/// The elements of a gap, as text.
pub proof fn lemma_render_gap(book: &WorkBook, sheet: &Sheet, from: int, to: int, columns: int)
    ensures
        render(book, sheet, gap_items(sheet.header, from, to, columns)) == gap_text(
            sheet,
            from,
            to,
            columns,
        ),
    decreases to - from,
{
    if from >= to {
        lemma_render_one(book, sheet, Item::RowEnd { row: 0 });
    } else {
        let stop = run_end(sheet.header, from, to);
        let open = header_open_items(sheet.header, from);
        let rows = seq![Item::EmptyRows { row: from, count: stop - from, columns }];
        let close = header_close_items(sheet.header, stop - 1);
        let rest = gap_items(sheet.header, stop, to, columns);
        lemma_render_gap(book, sheet, stop, to, columns);
        lemma_render_concat(book, sheet, open + rows + close, rest);
        lemma_render_concat3(book, sheet, open, rows, close);
        lemma_render_header_open(book, sheet, from);
        lemma_render_header_close(book, sheet, stop - 1);
        lemma_render_one(book, sheet, Item::EmptyRows { row: from, count: stop - from, columns });
        reveal(gap_run_text);
    }
}

/// The blank cells after a populated cell, as text.
pub proof fn lemma_render_fillers(book: &WorkBook, sheet: &Sheet, total: int, run: int)
    ensures
        render(book, sheet, filler_items(total, run)) == fillers_text(total, run),
{
    reveal(fillers_text);
    let covered = if run < total {
        run
    } else {
        total
    };
    let a = if covered > 0 {
        seq![Item::CoveredBlank { count: covered }]
    } else {
        Seq::empty()
    };
    let b = if total - covered > 0 {
        seq![Item::Blank { count: total - covered }]
    } else {
        Seq::empty()
    };
    lemma_render_concat(book, sheet, a, b);
    lemma_render_one(book, sheet, Item::CoveredBlank { count: covered });
    lemma_render_one(book, sheet, Item::Blank { count: total - covered });
}

impl Sheet {
    /// The text before the cell `i` where it begins a row.
    pub open spec fn block_head_text(&self, i: int) -> Seq<char> {
        let c = self.cells@[i];
        if self.starts_row(i) {
            gap_text(self, self.gap_start(i), c.row as int, self.extent.1 as int) + row_head_text(
                self,
                c.row as int,
                c.col as int,
            )
        } else {
            Seq::empty()
        }
    }

    /// The text of the cell `i` and of the blank cells after it.
    pub open spec fn block_body_text(&self, book: &WorkBook, i: int) -> Seq<char> {
        cell_text(book, &self.cells@[i].content, self.hidden(i).0) + fillers_text(
            self.forward(i) - 1,
            self.hidden(i).1 as int,
        )
    }

    /// The text after the cell `i` where it ends a row.
    pub open spec fn block_tail_text(&self, i: int) -> Seq<char> {
        if self.ends_row(i) {
            row_tail_text(self, self.cells@[i].row as int)
        } else {
            Seq::empty()
        }
    }

    /// What is written before the cell `i`, as text.
    pub proof fn lemma_render_block_head(&self, book: &WorkBook, i: int)
        ensures
            render(book, self, self.block_head(i)) == self.block_head_text(i),
    {
        let c = self.cells@[i];
        if self.starts_row(i) {
            let gap = gap_items(
                self.header,
                self.gap_start(i),
                c.row as int,
                self.extent.1 as int,
            );
            let open = header_open_items(self.header, c.row as int);
            let start = seq![Item::RowStart { row: c.row as int }];
            let lead = if c.col > 0 {
                seq![Item::Blank { count: c.col as int }]
            } else {
                Seq::empty()
            };
            lemma_render_concat(book, self, gap + open + start, lead);
            lemma_render_concat3(book, self, gap, open, start);
            lemma_render_gap(book, self, self.gap_start(i), c.row as int, self.extent.1 as int);
            lemma_render_header_open(book, self, c.row as int);
            lemma_render_one(book, self, Item::RowStart { row: c.row as int });
            lemma_render_one(book, self, Item::Blank { count: c.col as int });
            reveal(row_head_text);
            let g = gap_text(self, self.gap_start(i), c.row as int, self.extent.1 as int);
            let o = header_open_text(self.header, c.row as int);
            let s = row_start_text(self, c.row as int);
            let l = if c.col > 0 {
                filler_text("table:table-cell"@, c.col as int)
            } else {
                Seq::empty()
            };
            assert(render(book, self, lead) == l);
            assert(g + o + s + l =~= g + (o + s + l));
        } else {
            lemma_render_one(book, self, Item::RowEnd { row: 0 });
        }
    }

    /// The cell `i` and the blank cells after it, as text.
    pub proof fn lemma_render_block_body(&self, book: &WorkBook, i: int)
        ensures
            render(book, self, self.block_body(i)) == self.block_body_text(book, i),
    {
        let cell = Item::Cell { index: i, covered: self.hidden(i).0 };
        lemma_render_concat(
            book,
            self,
            seq![cell],
            filler_items(self.forward(i) - 1, self.hidden(i).1 as int),
        );
        lemma_render_one(book, self, cell);
        lemma_render_fillers(book, self, self.forward(i) - 1, self.hidden(i).1 as int);
    }

    /// What is written after the cell `i`, as text.
    pub proof fn lemma_render_block_tail(&self, book: &WorkBook, i: int)
        ensures
            render(book, self, self.block_tail(i)) == self.block_tail_text(i),
    {
        if self.ends_row(i) {
            lemma_render_concat(
                book,
                self,
                seq![Item::RowEnd { row: self.cells@[i].row as int }],
                header_close_items(self.header, self.cells@[i].row as int),
            );
            lemma_render_header_close(book, self, self.cells@[i].row as int);
            reveal(row_tail_text);
            lemma_render_one(book, self, Item::RowEnd { row: self.cells@[i].row as int });
        }
        lemma_render_one(book, self, Item::RowEnd { row: 0 });
    }

    /// All that is written for the cell `i`, as text.
    pub proof fn lemma_render_block(&self, book: &WorkBook, i: int)
        ensures
            render(book, self, self.block(i)) == self.block_head_text(i) + self.block_body_text(
                book,
                i,
            ) + self.block_tail_text(i),
    {
        lemma_render_concat3(
            book,
            self,
            self.block_head(i),
            self.block_body(i),
            self.block_tail(i),
        );
        self.lemma_render_block_head(book, i);
        self.lemma_render_block_body(book, i);
        self.lemma_render_block_tail(book, i);
    }
}

} // verus!
