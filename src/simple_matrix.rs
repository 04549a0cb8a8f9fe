//! A row-major grid stored in one vector, with checked coordinates.
use vstd::prelude::*;

verus! {

/// `m` holds the grid row by row: the cell at column `x`, row `y` is `m[y * width + x]`.
#[derive(Debug)]
pub struct Matrix<T> {
    pub m: Vec<T>,
    pub width: usize,
    pub height: usize,
}

/// The (column, row) of the `index`-th cell of a grid `width` wide; a grid of width
/// zero is read as a single row.
pub open spec fn position_of(index: usize, width: usize) -> (usize, usize) {
    if width == 0 {
        (index, 0)
    } else {
        ((index % width) as usize, (index / width) as usize)
    }
}

impl<T> Matrix<T> {
    pub open spec fn in_bounds(&self, at: (usize, usize)) -> bool {
        &&& at.0 < self.width
        &&& at.1 < self.height
        &&& at.1 * self.width + at.0 < self.m@.len()
    }

    /// An empty grid with the given dimensions; its cells come later.
    pub fn new(width: usize, height: usize) -> (r: Self)
        ensures
            r.m@.len() == 0,
            r.width == width,
            r.height == height,
    {
        Matrix { m: Vec::new(), width: width, height: height }
    }

    /// Sets every cell to `value`.
    pub fn reset_to(&mut self, value: T) where T: Copy
        ensures
            final(self).m@.len() == old(self).m@.len(),
            forall|i: int| 0 <= i < final(self).m@.len() ==> final(self).m@[i] == value,
            final(self).width == old(self).width,
            final(self).height == old(self).height,
    {
        let n = self.m.len();
        let mut i: usize = 0;
        while i < n
            invariant
                i <= n,
                n == self.m@.len(),
                n == old(self).m@.len(),
                self.width == old(self).width,
                self.height == old(self).height,
                forall|j: int| 0 <= j < i ==> self.m@[j] == value,
            decreases n - i,
        {
            self.m.set(i, value);
            i = i + 1;
        }
    }

    /// The (column, row) of the cell stored at `index`.
    pub fn position(&self, index: usize) -> (r: (usize, usize))
        ensures
            r == position_of(index, self.width),
    {
        if self.width == 0 {
            (index, 0)
        } else {
            (index % self.width, index / self.width)
        }
    }

    /// Where the cell at (column, row) `at` is stored, if the grid has it.
    pub fn index_of(&self, at: (usize, usize)) -> (r: Option<usize>)
        ensures
            r == (if self.in_bounds(at) {
                Some((at.1 * self.width + at.0) as usize)
            } else {
                None::<usize>
            }),
    {
        let len = self.m.len();
        if at.0 >= self.width || at.1 >= self.height {
            return None;
        }
        match at.1.checked_mul(self.width) {
            None => {
                assert(at.1 * self.width + at.0 >= len);
                None
            },
            Some(row_start) => match row_start.checked_add(at.0) {
                None => None,
                Some(i) => {
                    if i < self.m.len() {
                        Some(i)
                    } else {
                        None
                    }
                },
            },
        }
    }

    /// The cell at (column, row) `at`, if the grid has it.
    pub fn get(&self, at: (usize, usize)) -> (r: Option<T>) where T: Copy
        ensures
            r == (if self.in_bounds(at) {
                Some(self.m@[at.1 * self.width + at.0])
            } else {
                None::<T>
            }),
    {
        let len = self.m.len();
        match self.index_of(at) {
            Some(i) => Some(self.m[i]),
            None => None,
        }
    }
}

} // verus!
