//! The routing matrix: a gain from every input to every output.

use crate::ieee::{clamp, clamped, is_less, less, within, ONE, ZERO};
use vstd::prelude::*;

verus! {

/// A dense matrix of gains from 0 to 1, one row for each input and one
/// column for each output.
pub struct RoutingMatrix {
    pub input_count: usize,
    pub output_count: usize,
    /// Rows of gains: `matrix[input][output]`.
    pub matrix: Vec<Vec<u32>>,
}

/// The cells of a matrix as rows of words.
pub open spec fn cells(matrix: Seq<Vec<u32>>) -> Seq<Seq<u32>> {
    Seq::new(matrix.len(), |i: int| matrix[i]@)
}

/// The matrix of `inputs` rows and `outputs` columns with one on the
/// leading diagonal and zero elsewhere.
pub open spec fn identity(inputs: nat, outputs: nat) -> Seq<Seq<u32>> {
    Seq::new(inputs, |i: int| Seq::new(outputs, |j: int| if i == j { ONE } else { ZERO }))
}

/// The matrix of `inputs` rows and `outputs` columns with zero in every
/// cell.
pub open spec fn silent(inputs: nat, outputs: nat) -> Seq<Seq<u32>> {
    Seq::new(inputs, |i: int| Seq::new(outputs, |j: int| ZERO))
}

/// The cells of `row` that hold more than zero, each with its index, in
/// the order of the row.
pub open spec fn open_cells(row: Seq<u32>) -> Seq<(usize, u32)>
    decreases row.len(),
{
    if row.len() == 0 {
        Seq::empty()
    } else if less(ZERO, row.last()) {
        open_cells(row.drop_last()).push(((row.len() - 1) as usize, row.last()))
    } else {
        open_cells(row.drop_last())
    }
}

/// The column `output` of a matrix.
pub open spec fn column(m: Seq<Seq<u32>>, output: int) -> Seq<u32> {
    Seq::new(m.len(), |i: int| m[i][output])
}

/// `m` with the cell at `input`, `output` set to `gain`.
pub open spec fn with_cell(m: Seq<Seq<u32>>, input: int, output: int, gain: u32) -> Seq<Seq<u32>> {
    m.update(input, m[input].update(output, gain))
}

impl View for RoutingMatrix {
    type V = Seq<Seq<u32>>;

    open spec fn view(&self) -> Seq<Seq<u32>> {
        cells(self.matrix@)
    }
}

impl RoutingMatrix {
    /// The matrix has its rows and columns, and every cell holds a
    /// number from 0 to 1.
    pub open spec fn wf(&self) -> bool {
        &&& self@.len() == self.input_count
        &&& forall|i: int| 0 <= i < self@.len() ==> (#[trigger] self@[i]).len() == self.output_count
        &&& forall|i: int, j: int|
            0 <= i < self.input_count && 0 <= j < self.output_count ==> within(
                #[trigger] self@[i][j],
                ZERO,
                ONE,
            )
    }

    /// The matrix that routes every input to the output of the same
    /// index.
    pub fn new(input_count: usize, output_count: usize) -> (m: Self)
        ensures
            m.wf(),
            m.input_count == input_count,
            m.output_count == output_count,
            m@ == identity(input_count as nat, output_count as nat),
    {
        let mut matrix: Vec<Vec<u32>> = Vec::new();
        let mut i: usize = 0;
        while i < input_count
            invariant
                i <= input_count,
                matrix@.len() == i,
                forall|r: int|
                    0 <= r < i ==> (#[trigger] matrix@[r])@ == Seq::new(
                        output_count as nat,
                        |j: int| if r == j { ONE } else { ZERO },
                    ),
            decreases input_count - i,
        {
            let mut row: Vec<u32> = Vec::new();
            let mut j: usize = 0;
            while j < output_count
                invariant
                    j <= output_count,
                    row@.len() == j,
                    forall|c: int| 0 <= c < j ==> #[trigger] row@[c] == if i == c { ONE } else { ZERO },
                decreases output_count - j,
            {
                row.push(if i == j { ONE } else { ZERO });
                j = j + 1;
            }
            assert(row@ =~= Seq::new(output_count as nat, |j: int| if i == j { ONE } else { ZERO }));
            matrix.push(row);
            i = i + 1;
        }
        let m = RoutingMatrix { input_count, output_count, matrix };
        assert(m@ =~= identity(input_count as nat, output_count as nat));
        m
    }

    /// Sets the gain from `input` to `output`, held to the range from 0
    /// to 1. Returns `false`, and changes nothing, when there is no such
    /// cell.
    pub fn set(&mut self, input: usize, output: usize, gain: u32) -> (ok: bool)
        requires
            old(self).wf(),
        ensures
            final(self).wf(),
            final(self).input_count == old(self).input_count,
            final(self).output_count == old(self).output_count,
            ok == (input < old(self).input_count && output < old(self).output_count),
            final(self)@ == if ok {
                with_cell(old(self)@, input as int, output as int, clamped(gain, ZERO, ONE))
            } else {
                old(self)@
            },
    {
        if input >= self.input_count || output >= self.output_count {
            return false;
        }
        let ghost before = self@;
        let value = clamp(gain, ZERO, ONE);
        let mut row: Vec<u32> = Vec::new();
        // the row is taken out, changed and put back
        core::mem::swap(&mut row, &mut self.matrix[input]);
        assert(row@ == before[input as int]);
        row.set(output, value);
        self.matrix.set(input, row);
        assert(self@ =~= with_cell(before, input as int, output as int, value));
        assert forall|i: int| 0 <= i < self@.len() implies (#[trigger] self@[i]).len()
            == self.output_count by {
            assert(before[i].len() == self.output_count);
        }
        assert forall|i: int, j: int|
            0 <= i < self.input_count && 0 <= j < self.output_count implies within(
            #[trigger] self@[i][j],
            ZERO,
            ONE,
        ) by {
            assert(within(before[i][j], ZERO, ONE));
        }
        true
    }

    /// The gain from `input` to `output`, or `None` when there is no such
    /// cell.
    pub fn get(&self, input: usize, output: usize) -> (g: Option<u32>)
        requires
            self.wf(),
        ensures
            g == if input < self.input_count && output < self.output_count {
                Some(self@[input as int][output as int])
            } else {
                None
            },
    {
        if input >= self.input_count || output >= self.output_count {
            return None;
        }
        assert(self@[input as int].len() == self.output_count);
        Some(self.matrix[input][output])
    }

    /// The inputs that reach `output` with a gain above zero, each with
    /// its gain. Empty when there is no such output.
    pub fn inputs_for_output(&self, output: usize) -> (r: Vec<(usize, u32)>)
        requires
            self.wf(),
        ensures
            r@ == if output < self.output_count {
                open_cells(column(self@, output as int))
            } else {
                Seq::empty()
            },
    {
        let mut r: Vec<(usize, u32)> = Vec::new();
        if output >= self.output_count {
            return r;
        }
        let ghost col = column(self@, output as int);
        let mut i: usize = 0;
        assert(col.take(0) =~= Seq::<u32>::empty());
        while i < self.input_count
            invariant
                i <= self.input_count,
                self.wf(),
                output < self.output_count,
                col == column(self@, output as int),
                r@ == open_cells(col.take(i as int)),
            decreases self.input_count - i,
        {
            assert(self@[i as int].len() == self.output_count);
            let gain = self.matrix[i][output];
            assert(col.take(i as int + 1).drop_last() =~= col.take(i as int));
            assert(col.take(i as int + 1).last() == gain);
            if is_less(ZERO, gain) {
                r.push((i, gain));
            }
            i = i + 1;
        }
        assert(col.take(self.input_count as int) =~= col);
        r
    }

    /// The outputs that `input` reaches with a gain above zero, each with
    /// its gain. Empty when there is no such input.
    pub fn outputs_for_input(&self, input: usize) -> (r: Vec<(usize, u32)>)
        requires
            self.wf(),
        ensures
            r@ == if input < self.input_count {
                open_cells(self@[input as int])
            } else {
                Seq::empty()
            },
    {
        let mut r: Vec<(usize, u32)> = Vec::new();
        if input >= self.input_count {
            return r;
        }
        let ghost row = self@[input as int];
        assert(row.len() == self.output_count);
        let mut j: usize = 0;
        assert(row.take(0) =~= Seq::<u32>::empty());
        while j < self.output_count
            invariant
                j <= self.output_count,
                input < self.matrix@.len(),
                row == self.matrix@[input as int]@,
                row.len() == self.output_count,
                r@ == open_cells(row.take(j as int)),
            decreases self.output_count - j,
        {
            let gain = self.matrix[input][j];
            assert(row.take(j as int + 1).drop_last() =~= row.take(j as int));
            assert(row.take(j as int + 1).last() == gain);
            if is_less(ZERO, gain) {
                r.push((j, gain));
            }
            j = j + 1;
        }
        assert(row.take(self.output_count as int) =~= row);
        r
    }

    /// Sets every cell to zero.
    pub fn clear(&mut self)
        requires
            old(self).wf(),
        ensures
            final(self).wf(),
            final(self).input_count == old(self).input_count,
            final(self).output_count == old(self).output_count,
            final(self)@ == silent(old(self).input_count as nat, old(self).output_count as nat),
    {
        let mut matrix: Vec<Vec<u32>> = Vec::new();
        let mut i: usize = 0;
        while i < self.input_count
            invariant
                i <= self.input_count,
                matrix@.len() == i,
                forall|r: int|
                    0 <= r < i ==> (#[trigger] matrix@[r])@ == Seq::new(
                        self.output_count as nat,
                        |j: int| ZERO,
                    ),
            decreases self.input_count - i,
        {
            let mut row: Vec<u32> = Vec::new();
            let mut j: usize = 0;
            while j < self.output_count
                invariant
                    j <= self.output_count,
                    row@.len() == j,
                    forall|c: int| 0 <= c < j ==> #[trigger] row@[c] == ZERO,
                decreases self.output_count - j,
            {
                row.push(ZERO);
                j = j + 1;
            }
            assert(row@ =~= Seq::new(self.output_count as nat, |j: int| ZERO));
            matrix.push(row);
            i = i + 1;
        }
        self.matrix = matrix;
        assert(self@ =~= silent(self.input_count as nat, self.output_count as nat));
    }

    /// Routes every input to the output of the same index and nowhere
    /// else.
    pub fn set_unity(&mut self)
        requires
            old(self).wf(),
        ensures
            final(self).wf(),
            final(self).input_count == old(self).input_count,
            final(self).output_count == old(self).output_count,
            final(self)@ == identity(old(self).input_count as nat, old(self).output_count as nat),
    {
        let fresh = RoutingMatrix::new(self.input_count, self.output_count);
        self.matrix = fresh.matrix;
    }

    /// Routes the input pair that starts at `left_in` to the output pair
    /// that starts at `left_out`, both at a gain of one. Nothing changes
    /// when either pair does not fit the matrix.
    pub fn set_stereo_pair(&mut self, left_in: usize, left_out: usize)
        requires
            old(self).wf(),
        ensures
            final(self).wf(),
            final(self).input_count == old(self).input_count,
            final(self).output_count == old(self).output_count,
            final(self)@ == if left_in + 1 < old(self).input_count && left_out + 1 < old(
                self,
            ).output_count {
                with_cell(
                    with_cell(old(self)@, left_in as int, left_out as int, ONE),
                    left_in + 1,
                    left_out + 1,
                    ONE,
                )
            } else {
                old(self)@
            },
    {
        if left_in < self.input_count && left_out < self.output_count && left_in + 1
            < self.input_count && left_out + 1 < self.output_count {
            self.set(left_in, left_out, ONE);
            self.set(left_in + 1, left_out + 1, ONE);
        }
    }

    /// A copy of the cells.
    pub fn snapshot(&self) -> (out: Vec<Vec<u32>>)
        ensures
            cells(out@) == self@,
    {
        let mut out: Vec<Vec<u32>> = Vec::new();
        let mut i: usize = 0;
        while i < self.matrix.len()
            invariant
                i <= self.matrix@.len(),
                out@.len() == i,
                forall|r: int| 0 <= r < i ==> (#[trigger] out@[r])@ == self.matrix@[r]@,
            decreases self.matrix@.len() - i,
        {
            out.push(self.matrix[i].clone());
            i = i + 1;
        }
        assert(cells(out@) =~= self@);
        out
    }
}

} // verus!
