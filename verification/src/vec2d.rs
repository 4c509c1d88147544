//! A rectangular grid stored flat, indexed by zero-based `(x, y)`.

use vstd::prelude::*;

verus! {

/// An `x` by `y` grid of values, stored column by column.
#[derive(Debug, Clone)]
pub struct Vec2d<T> {
    size_x: usize,
    size_y: usize,
    data: Vec<T>,
}

impl<T> Vec2d<T> {
    /// The grid's width.
    pub closed spec fn spec_x(&self) -> usize {
        self.size_x
    }

    /// The grid's height.
    pub closed spec fn spec_y(&self) -> usize {
        self.size_y
    }

    /// The grid holds one value per cell.
    pub closed spec fn wf(&self) -> bool {
        self.data@.len() == self.spec_x() * self.spec_y()
    }

    /// The value at zero-based `(x, y)`.
    pub closed spec fn spec_index(&self, x: int, y: int) -> T {
        self.data@[x * self.spec_y() + y]
    }

    /// A grid with no cells.
    pub fn new_empty() -> (g: Vec2d<T>)
        ensures
            g.wf(),
            g.spec_x() == 0,
            g.spec_y() == 0,
    {
        Vec2d { size_x: 0, size_y: 0, data: Vec::new() }
    }

    /// The grid's size as `(x, y)`.
    pub fn size(&self) -> (s: (usize, usize))
        ensures
            s == ((self.spec_x(), self.spec_y())),
    {
        (self.size_x, self.size_y)
    }

    /// The grid's width.
    pub fn x(&self) -> (r: usize)
        ensures
            r == self.spec_x(),
    {
        self.size_x
    }

    /// The grid's height.
    pub fn y(&self) -> (r: usize)
        ensures
            r == self.spec_y(),
    {
        self.size_y
    }

    /// Read the cell at zero-based `(x, y)`.
    pub fn get(&self, x: usize, y: usize) -> (v: &T)
        requires
            self.wf(),
            x < self.spec_x(),
            y < self.spec_y(),
        ensures
            *v == self.spec_index(x as int, y as int),
    {
        let n = self.data.len();
        proof {
            lemma_flat_index_in_range(x as int, y as int, self.spec_x() as int, self.spec_y() as int);
            assert((x as int) * (self.spec_y() as int) + (y as int) < (n as int));
        }
        &self.data[x * self.size_y + y]
    }

    /// Write the cell at zero-based `(x, y)`.
    pub fn set(&mut self, x: usize, y: usize, v: T)
        requires
            old(self).wf(),
            x < old(self).spec_x(),
            y < old(self).spec_y(),
        ensures
            final(self).wf(),
            final(self).spec_x() == old(self).spec_x(),
            final(self).spec_y() == old(self).spec_y(),
            final(self).spec_index(x as int, y as int) == v,
            forall|i: int, j: int|
                0 <= i < old(self).spec_x() && 0 <= j < old(self).spec_y() && !(i == x && j == y)
                    ==> final(self).spec_index(i, j) == old(self).spec_index(i, j),
    {
        let n = self.data.len();
        proof {
            lemma_flat_index_in_range(x as int, y as int, self.spec_x() as int, self.spec_y() as int);
            assert((x as int) * (self.spec_y() as int) + (y as int) < (n as int));
        }
        self.data.set(x * self.size_y + y, v);
        proof {
            assert forall|i: int, j: int|
                0 <= i < old(self).spec_x() && 0 <= j < old(self).spec_y() && !(i == x && j == y)
                    implies final(self).spec_index(i, j) == old(self).spec_index(i, j) by {
                lemma_flat_index_in_range(i, j, self.spec_x() as int, self.spec_y() as int);
                lemma_flat_index_injective(i, j, x as int, y as int, self.spec_y() as int);
            }
        }
    }
}

impl<T: Copy> Vec2d<T> {
    /// An `x` by `y` grid with every cell holding `value`.
    pub fn new_filled_copy(x: usize, y: usize, value: T) -> (g: Vec2d<T>)
        requires
            x * y <= usize::MAX,
        ensures
            g.wf(),
            g.spec_x() == x,
            g.spec_y() == y,
            forall|i: int, j: int|
                0 <= i < x && 0 <= j < y ==> g.spec_index(i, j) == value,
    {
        proof {
            vstd::arithmetic::mul::lemma_mul_nonnegative(x as int, y as int);
        }
        let n: usize = x * y;
        let mut data: Vec<T> = Vec::new();
        let mut k: usize = 0;
        while k < n
            invariant
                k <= n,
                data@.len() == k,
                forall|i: int| 0 <= i < k ==> data@[i] == value,
            decreases n - k,
        {
            data.push(value);
            k = k + 1;
        }
        let g = Vec2d { size_x: x, size_y: y, data };
        proof {
            assert forall|i: int, j: int| 0 <= i < x && 0 <= j < y implies g.spec_index(i, j)
                == value by {
                lemma_flat_index_in_range(i, j, x as int, y as int);
            }
        }
        g
    }

    /// Read the cell at zero-based `(x, y)` by value.
    pub fn read(&self, x: usize, y: usize) -> (v: T)
        requires
            self.wf(),
            x < self.spec_x(),
            y < self.spec_y(),
        ensures
            v == self.spec_index(x as int, y as int),
    {
        *self.get(x, y)
    }
}

/// A cell's flat position lies inside the grid's storage.
proof fn lemma_flat_index_in_range(x: int, y: int, size_x: int, size_y: int)
    requires
        0 <= x < size_x,
        0 <= y < size_y,
    ensures
        0 <= x * size_y + y < size_x * size_y,
{
    assert(x * size_y + y < size_x * size_y) by (nonlinear_arith)
        requires
            0 <= x < size_x,
            0 <= y < size_y,
    ;
    assert(0 <= x * size_y) by (nonlinear_arith)
        requires
            0 <= x,
            0 <= size_y,
    ;
}

/// Different cells have different flat positions.
proof fn lemma_flat_index_injective(x1: int, y1: int, x2: int, y2: int, size_y: int)
    requires
        0 <= y1 < size_y,
        0 <= y2 < size_y,
        0 <= x1,
        0 <= x2,
        !(x1 == x2 && y1 == y2),
    ensures
        x1 * size_y + y1 != x2 * size_y + y2,
{
    assert(x1 * size_y + y1 != x2 * size_y + y2) by (nonlinear_arith)
        requires
            0 <= y1 < size_y,
            0 <= y2 < size_y,
            0 <= x1,
            0 <= x2,
            !(x1 == x2 && y1 == y2),
    ;
}

} // verus!
