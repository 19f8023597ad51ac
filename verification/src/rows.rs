//! Row-level processing: one output row per input row, with the nodata
//! sentinel preserved, and the sequential assembly of the whole output grid.

use vstd::prelude::*;
use crate::grid::Grid;
use crate::kernel::{RayParams, fetch_spec, fetch_cell};

verus! {

/// The value the run writes for one cell: the nodata sentinel where the
/// input has it, the fetch distance everywhere else.
pub open spec fn cell_result(g: Grid, row: int, col: int, p: RayParams) -> int {
    if g.cell(row, col) == g.nodata {
        g.nodata as int
    } else {
        fetch_spec(g, row, col, p)
    }
}

/// Compute one output row: the fetch distance of every valid cell of the
/// input row, the nodata sentinel for the rest.
pub fn process_row(g: &Grid, row: usize, p: RayParams) -> (data: Vec<i64>)
    requires
        g.wf(),
        g.bounded(),
        p.wf(),
        row < g.rows,
    ensures
        data@.len() == g.columns,
        forall|c: int| 0 <= c < g.columns ==> data@[c] == cell_result(*g, row as int, c, p),
{
    let mut data: Vec<i64> = Vec::new();
    let mut col: usize = 0;
    while col < g.columns
        invariant
            g.wf(),
            g.bounded(),
            p.wf(),
            row < g.rows,
            col <= g.columns,
            data@.len() == col,
            forall|c: int| 0 <= c < col ==> data@[c] == cell_result(*g, row as int, c, p),
        decreases g.columns - col,
    {
        let cur: i64 = g.get(row, col);
        if cur != g.nodata {
            data.push(fetch_cell(g, row, col, p));
        } else {
            data.push(g.nodata);
        }
        col = col + 1;
    }
    data
}

/// Run the whole transform sequentially: every cell of the output grid holds
/// its row's computed values; in particular every nodata cell of the input
/// stays nodata in the output.
pub fn compute(g: &Grid, p: RayParams) -> (out: Grid)
    requires
        g.wf(),
        g.bounded(),
        p.wf(),
    ensures
        out.wf(),
        out.rows == g.rows,
        out.columns == g.columns,
        out.nodata == g.nodata,
        forall|r: int, c: int|
            0 <= r < g.rows && 0 <= c < g.columns
                ==> out.cell(r, c) == cell_result(*g, r, c, p),
        forall|r: int, c: int|
            0 <= r < g.rows && 0 <= c < g.columns && g.cell(r, c) == g.nodata
                ==> out.cell(r, c) == g.nodata,
{
    let mut out = Grid::new_filled(g.rows, g.columns, g.nodata, g.nodata);
    let mut row: usize = 0;
    while row < g.rows
        invariant
            g.wf(),
            g.bounded(),
            p.wf(),
            row <= g.rows,
            out.wf(),
            out.rows == g.rows,
            out.columns == g.columns,
            out.nodata == g.nodata,
            forall|r: int, c: int|
                0 <= r < row && 0 <= c < g.columns
                    ==> out.cell(r, c) == cell_result(*g, r, c, p),
        decreases g.rows - row,
    {
        let data = process_row(g, row, p);
        let ghost before = out;
        out.set_row(row, data);
        proof {
            assert forall|r: int, c: int|
                0 <= r < row + 1 && 0 <= c < g.columns
                    implies out.cell(r, c) == cell_result(*g, r, c, p) by {
                if r == row {
                    assert(out.cell(r, c) == data@[c]);
                } else {
                    assert(out.cell(r, c) == before.cell(r, c));
                }
            }
        }
        row = row + 1;
    }
    out
}

} // verus!
