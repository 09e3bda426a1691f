//! The matrix: a fixed 3x16 grid of decimal digits, parsed from the page
//! markup that publishes it.

use vstd::prelude::*;
use vstd::string::StrSliceExecFns;
use crate::coord::MatrixPosition;
use crate::digits::{dec_val, is_dec_digit, parse_dec_digit};
use crate::error::Error;

verus! {

/// What extracting the markup finds: for each tabular block, in document
/// order, the text of each of its cell fragments, in document order.
pub uninterp spec fn tables_of(markup: Seq<char>) -> Seq<Seq<Seq<char>>>;

/// Relies on scraper: `Html::parse_document` builds the document tree from
/// the markup, `select` walks matching elements in document order (the outer
/// selector picks the tabular blocks by their structural marker, the inner
/// one their cell fragments), and `text` yields the text of each fragment's
/// descendant text nodes in order. The result is a function of the markup
/// alone.
#[verifier::external_body]
fn extract_cells(markup: &str) -> (r: Vec<Vec<String>>)
    ensures
        r.deep_view() == tables_of(markup@),
{
    let table_selector = scraper::Selector::parse("table.randamNumbarWidth").unwrap();
    let cell_selector = scraper::Selector::parse("p").unwrap();
    let html = scraper::Html::parse_document(markup);
    html.select(&table_selector)
        .map(|table| {
            table.select(&cell_selector)
                .map(|cell| cell.text().collect::<String>())
                .collect()
        })
        .collect()
}

/// The cell text is a single decimal digit.
pub open spec fn cell_ok(t: Seq<char>) -> bool {
    t.len() == 1 && is_dec_digit(t[0])
}

/// The block holds exactly 16 cells, each a single decimal digit.
pub open spec fn table_ok(t: Seq<Seq<char>>) -> bool {
    t.len() == 16 && (forall|j: int| 0 <= j < 16 ==> cell_ok(#[trigger] t[j]))
}

/// Every block before `i` is fully valid.
pub open spec fn tables_ok_upto(c: Seq<Seq<Seq<char>>>, i: int) -> bool {
    forall|k: int| 0 <= k < i ==> table_ok(#[trigger] c[k])
}

/// Exactly three blocks, each fully valid.
pub open spec fn cells_ok(c: Seq<Seq<Seq<char>>>) -> bool {
    c.len() == 3 && tables_ok_upto(c, 3)
}

/// The grid that valid cell texts denote.
pub open spec fn grid_of(c: Seq<Seq<Seq<char>>>) -> Seq<Seq<u8>> {
    Seq::new(3, |i: int| Seq::new(16, |j: int| dec_val(c[i][j][0]) as u8))
}

/// The decoded matrix: exactly 3 tables of exactly 16 cells, each a digit
/// in `[0, 9]`. Shape and range are enforced at construction; a malformed
/// source is a construction failure, never a partial grid.
#[derive(Debug)]
pub struct Matrix {
    tables: Vec<Vec<u8>>,
}

impl Matrix {
    /// The grid of digits.
    pub closed spec fn grid(self) -> Seq<Seq<u8>> {
        self.tables.deep_view()
    }

    /// Exactly 3 tables of 16 cells, each cell in `[0, 9]`.
    pub open spec fn wf(self) -> bool {
        &&& self.grid().len() == 3
        &&& forall|i: int| 0 <= i < 3 ==> (#[trigger] self.grid()[i]).len() == 16
        &&& forall|i: int, j: int| 0 <= i < 3 && 0 <= j < 16 ==> #[trigger] self.grid()[i][j] <= 9
    }

    /// Builds the matrix from the extracted cell texts: exactly 3 blocks
    /// (else `ShapeError`), each of exactly 16 cells (else `ShapeError`),
    /// each cell a single base-10 digit (else `ParseError`). Blocks are
    /// checked in order; within a block, the cell count first, then each
    /// cell in order.
    pub fn from_cells(cells: Vec<Vec<String>>) -> (r: Result<Matrix, Error>)
        ensures
            match r {
                Ok(m) => cells_ok(cells.deep_view()) && m.wf() && m.grid() == grid_of(
                    cells.deep_view(),
                ),
                Err(e) => {
                    let c = cells.deep_view();
                    match e {
                        Error::ShapeError { expected, actual } => (c.len() != 3 && expected == 3
                            && actual == c.len()) || (c.len() == 3 && expected == 16 && exists|
                            i: int,
                        |
                            0 <= i < 3 && tables_ok_upto(c, i) && (#[trigger] c[i]).len() != 16
                                && actual == c[i].len()),
                        Error::ParseError { table, cell } => c.len() == 3 && table < 3
                            && tables_ok_upto(c, table as int) && c[table as int].len() == 16
                            && cell < 16 && !cell_ok(c[table as int][cell as int]) && (forall|
                            j: int,
                        |
                            0 <= j < cell ==> cell_ok(#[trigger] c[table as int][j])),
                        _ => false,
                    }
                },
            },
    {
        let ghost c = cells.deep_view();
        if cells.len() != 3 {
            return Err(Error::ShapeError { expected: 3, actual: cells.len() });
        }
        let mut tables: Vec<Vec<u8>> = Vec::new();
        let mut i: usize = 0;
        while i < 3
            invariant
                cells.deep_view() == c,
                cells@.len() == 3,
                c.len() == 3,
                i <= 3,
                tables@.len() == i,
                tables_ok_upto(c, i as int),
                forall|k: int| 0 <= k < i ==> (#[trigger] tables@[k]).deep_view() == grid_of(c)[k],
            decreases 3 - i,
        {
            proof {
                assert(c[i as int] == cells@[i as int].deep_view());
            }
            let table = &cells[i];
            if table.len() != 16 {
                return Err(Error::ShapeError { expected: 16, actual: table.len() });
            }
            let mut row: Vec<u8> = Vec::new();
            let mut j: usize = 0;
            while j < 16
                invariant
                    cells.deep_view() == c,
                    cells@.len() == 3,
                    c.len() == 3,
                    i < 3,
                    tables_ok_upto(c, i as int),
                    table@ == cells@[i as int]@,
                    c[i as int] == cells@[i as int].deep_view(),
                    table@.len() == 16,
                    c[i as int].len() == 16,
                    j <= 16,
                    row@.len() == j,
                    forall|k: int| 0 <= k < j ==> cell_ok(#[trigger] c[i as int][k]),
                    forall|k: int|
                        0 <= k < j ==> #[trigger] row@[k] == dec_val(c[i as int][k][0]) as u8,
                decreases 16 - j,
            {
                let text = &table[j];
                proof {
                    assert(c[i as int][j as int] == table@[j as int]@);
                    assert(text@ == c[i as int][j as int]);
                }
                if text.unicode_len() != 1 {
                    return Err(Error::ParseError { table: i, cell: j });
                }
                let ch = text.as_str().get_char(0);
                match parse_dec_digit(ch) {
                    Some(v) => row.push(v),
                    None => {
                        return Err(Error::ParseError { table: i, cell: j });
                    },
                }
                j += 1;
            }
            proof {
                assert(table_ok(c[i as int]));
                assert(grid_of(c)[i as int] == Seq::new(16, |k: int| dec_val(c[i as int][k][0]) as u8));
                assert(row.deep_view() =~= grid_of(c)[i as int]);
            }
            tables.push(row);
            i += 1;
        }
        let m = Matrix { tables };
        proof {
            assert forall|k: int| 0 <= k < 3 implies #[trigger] m.grid()[k] == grid_of(c)[k] by {
                assert(m.grid()[k] == tables@[k].deep_view());
            }
            assert(m.grid() =~= grid_of(c));
            assert(m.wf()) by {
                assert forall|a: int, b: int| 0 <= a < 3 && 0 <= b < 16 implies #[trigger] m.grid()[a][b]
                    <= 9 by {
                    assert(is_dec_digit(c[a][b][0]));
                }
            }
        }
        Ok(m)
    }

    /// Parses page markup into the matrix. The blocks and cells the markup
    /// holds are what `tables_of` names; the shape and content rules are
    /// those of `from_cells`.
    pub fn parse(markup: &str) -> (r: Result<Matrix, Error>)
        ensures
            match r {
                Ok(m) => cells_ok(tables_of(markup@)) && m.wf() && m.grid() == grid_of(
                    tables_of(markup@),
                ),
                Err(e) => {
                    let c = tables_of(markup@);
                    match e {
                        Error::ShapeError { expected, actual } => (c.len() != 3 && expected == 3
                            && actual == c.len()) || (c.len() == 3 && expected == 16 && exists|
                            i: int,
                        |
                            0 <= i < 3 && tables_ok_upto(c, i) && (#[trigger] c[i]).len() != 16
                                && actual == c[i].len()),
                        Error::ParseError { table, cell } => c.len() == 3 && table < 3
                            && tables_ok_upto(c, table as int) && c[table as int].len() == 16
                            && cell < 16 && !cell_ok(c[table as int][cell as int]) && (forall|
                            j: int,
                        |
                            0 <= j < cell ==> cell_ok(#[trigger] c[table as int][j])),
                        _ => false,
                    }
                },
            },
    {
        let cells = extract_cells(markup);
        Self::from_cells(cells)
    }

    /// Looks one digit up. Total for every well-formed coordinate pair: the
    /// pair's ranges match the grid's shape by construction.
    pub fn get(&self, key: MatrixPosition) -> (d: u8)
        requires
            self.wf(),
            key.wf(),
        ensures
            d == self.grid()[key.table as int][key.position as int],
            d <= 9,
    {
        proof {
            assert(self.grid()[key.table as int] == self.tables@[key.table as int].deep_view());
            assert(self.grid()[key.table as int][key.position as int] == self.tables@[key.table as int]@[key.position as int]);
        }
        self.tables[key.table as usize][key.position as usize]
    }
}

} // verus!
