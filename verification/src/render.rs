//! Textual rendering of a simulation state.
//!
//! A render is a sequence of ASCII bytes: a line with the turn counter, a
//! line with the cumulative score, then one line per grid row (outer x,
//! inner y) with `@` at the agent's cell, the decimal digit of a positive
//! cell value, and `.` for a zero-value cell.

use vstd::prelude::*;
use crate::state::{H, Model, MazeState, flat};

verus! {

/// The decimal digits of a number, most significant first, as ASCII bytes.
pub open spec fn dec_rep(n: nat) -> Seq<u8>
    decreases n,
{
    if n < 10 {
        seq![(48 + n) as u8]
    } else {
        dec_rep(n / 10).push((48 + n % 10) as u8)
    }
}

/// The byte a cell is rendered as: `@` (64) at the agent's cell, the digit
/// of a positive value, `.` (46) otherwise.
pub open spec fn cell_byte(m: Model, i: int, j: int) -> u8 {
    if m.x == i && m.y == j {
        64u8
    } else if m.grid[flat(i, j)] > 0 {
        (48 + m.grid[flat(i, j)]) as u8
    } else {
        46u8
    }
}

/// One rendered grid row: the H cell bytes of row i, then a newline.
pub open spec fn row_bytes(m: Model, i: int) -> Seq<u8> {
    seq![cell_byte(m, i, 0), cell_byte(m, i, 1), cell_byte(m, i, 2), 10u8]
}

/// The full render of a state: `tern: <turn>`, `score: <score>`, then the
/// W grid rows, each line ending in a newline.
pub open spec fn render_bytes(m: Model) -> Seq<u8> {
    seq![116u8, 101u8, 114u8, 110u8, 58u8, 32u8] + dec_rep(m.tern as nat) + seq![10u8]
        + seq![115u8, 99u8, 111u8, 114u8, 101u8, 58u8, 32u8] + dec_rep(m.score as nat)
        + seq![10u8] + row_bytes(m, 0) + row_bytes(m, 1) + row_bytes(m, 2) + row_bytes(m, 3)
}

/// Appends the decimal digits of `n` to `out`.
fn push_dec(out: &mut Vec<u8>, n: u64)
    ensures
        final(out)@ == old(out)@ + dec_rep(n as nat),
    decreases n,
{
    if n >= 10 {
        push_dec(out, n / 10);
    }
    out.push(48 + (n % 10) as u8);
    proof {
        assert(out@ =~= old(out)@ + dec_rep(n as nat));
    }
}

impl MazeState {
    /// The byte cell (i, j) is rendered as.
    fn cell_at(&self, i: usize, j: usize) -> (b: u8)
        requires
            self.model().wf(),
            i < 4,
            j < 3,
        ensures
            b == cell_byte(self.model(), i as int, j as int),
    {
        if self.coord.x == i as i64 && self.coord.y == j as i64 {
            64
        } else {
            let idx: usize = ((i as i64) * H + (j as i64)) as usize;
            let p = self.points[idx];
            if p > 0 {
                48 + p as u8
            } else {
                46
            }
        }
    }

    /// Appends the rendered row i to `out`.
    fn push_row(&self, out: &mut Vec<u8>, i: usize)
        requires
            self.model().wf(),
            i < 4,
        ensures
            final(out)@ == old(out)@ + row_bytes(self.model(), i as int),
    {
        let b0 = self.cell_at(i, 0);
        out.push(b0);
        let b1 = self.cell_at(i, 1);
        out.push(b1);
        let b2 = self.cell_at(i, 2);
        out.push(b2);
        out.push(10);
        proof {
            assert(out@ =~= old(out)@ + row_bytes(self.model(), i as int));
        }
    }

    /// Renders the state as its full textual representation.
    pub fn render(&self) -> (out: Vec<u8>)
        requires
            self.model().wf(),
        ensures
            out@ == render_bytes(self.model()),
    {
        let mut out: Vec<u8> = Vec::new();
        out.push(116);
        out.push(101);
        out.push(114);
        out.push(110);
        out.push(58);
        out.push(32);
        push_dec(&mut out, self.tern);
        out.push(10);
        out.push(115);
        out.push(99);
        out.push(111);
        out.push(114);
        out.push(101);
        out.push(58);
        out.push(32);
        push_dec(&mut out, self.game_score);
        out.push(10);
        self.push_row(&mut out, 0);
        self.push_row(&mut out, 1);
        self.push_row(&mut out, 2);
        self.push_row(&mut out, 3);
        proof {
            assert(out@ =~= render_bytes(self.model()));
        }
        out
    }
}

} // verus!
