//! The table of particle types: a colour per type, and per ordered pair of
//! types the three coefficients of the force law.

use crate::hsv::Color;
use vstd::prelude::*;

verus! {

/// The mathematical content of a [`ParticleTypes`]: the colours, and the three
/// square matrices laid out row by row.
pub struct TypeTable {
    pub colors: Seq<Color>,
    pub attract: Seq<i64>,
    pub min_r: Seq<i64>,
    pub max_r: Seq<i64>,
}

impl TypeTable {
    /// The number of types.
    pub open spec fn size(self) -> nat {
        self.colors.len()
    }

    /// Each matrix has one cell per ordered pair of types.
    pub open spec fn wf(self) -> bool {
        &&& self.attract.len() == self.size() * self.size()
        &&& self.min_r.len() == self.size() * self.size()
        &&& self.max_r.len() == self.size() * self.size()
    }

    /// Where the cell of row `i` and column `j` lies in a matrix.
    pub open spec fn cell(self, i: int, j: int) -> int {
        i * self.size() + j
    }

    /// `i` and `j` name a pair of types.
    pub open spec fn has(self, i: int, j: int) -> bool {
        0 <= i < self.size() && 0 <= j < self.size()
    }

    /// How strongly type `i` is drawn towards type `j`.
    pub open spec fn attract_at(self, i: int, j: int) -> i64 {
        self.attract[self.cell(i, j)]
    }

    /// The inner radius of the pair.
    pub open spec fn min_r_at(self, i: int, j: int) -> i64 {
        self.min_r[self.cell(i, j)]
    }

    /// The outer radius of the pair.
    pub open spec fn max_r_at(self, i: int, j: int) -> i64 {
        self.max_r[self.cell(i, j)]
    }

    /// The table of `size` white types whose coefficients are all zero.
    pub open spec fn blank(size: nat) -> TypeTable {
        TypeTable {
            colors: Seq::new(size, |i: int| Color::white()),
            attract: Seq::new(size * size, |c: int| 0i64),
            min_r: Seq::new(size * size, |c: int| 0i64),
            max_r: Seq::new(size * size, |c: int| 0i64),
        }
    }
}

/// Distinct pairs of types have distinct cells, and every cell lies in the
/// matrix.
pub proof fn lemma_cells(size: int, i: int, j: int, k: int, l: int)
    requires
        0 <= i < size,
        0 <= j < size,
        0 <= k < size,
        0 <= l < size,
    ensures
        0 <= i * size + j < size * size,
        i * size + j == k * size + l ==> i == k && j == l,
{
    assert(0 <= i * size + j < size * size) by (nonlinear_arith)
        requires
            0 <= i < size,
            0 <= j < size,
    ;
    if i < k {
        assert(i * size + j < k * size + l) by (nonlinear_arith)
            requires
                0 <= i < k,
                0 <= j < size,
                0 <= l,
        ;
    }
    if k < i {
        assert(k * size + l < i * size + j) by (nonlinear_arith)
            requires
                0 <= k < i,
                0 <= l < size,
                0 <= j,
        ;
    }
}

/// The colours and interaction coefficients of the particle types.
#[derive(Debug)]
pub struct ParticleTypes {
    colors: Vec<Color>,
    attract: Vec<i64>,
    min_r: Vec<i64>,
    max_r: Vec<i64>,
}

impl View for ParticleTypes {
    type V = TypeTable;

    closed spec fn view(&self) -> TypeTable {
        TypeTable {
            colors: self.colors@,
            attract: self.attract@,
            min_r: self.min_r@,
            max_r: self.max_r@,
        }
    }
}

/// A vector of `len` copies of `value`.
pub(crate) fn filled<T: Copy>(len: usize, value: T) -> (v: Vec<T>)
    ensures
        v@ == Seq::new(len as nat, |i: int| value),
{
    let mut v: Vec<T> = Vec::new();
    let mut n: usize = 0;
    while n < len
        invariant
            n <= len,
            v@ == Seq::new(n as nat, |i: int| value),
        decreases len - n,
    {
        v.push(value);
        n += 1;
        assert(v@ =~= Seq::new(n as nat, |i: int| value));
    }
    v
}

impl ParticleTypes {
    /// The matrices fit the number of colours.
    pub open spec fn wf(&self) -> bool {
        self@.wf()
    }

    /// A table of `size` white types with all coefficients zero.
    pub fn new(size: usize) -> (types: ParticleTypes)
        requires
            size * size <= usize::MAX,
        ensures
            types.wf(),
            types@ == TypeTable::blank(size as nat),
    {
        ParticleTypes {
            colors: filled(size, Color::new_white()),
            attract: filled(size * size, 0i64),
            min_r: filled(size * size, 0i64),
            max_r: filled(size * size, 0i64),
        }
    }

    /// Makes the table one of `size` white types with all coefficients zero.
    pub fn resize(&mut self, size: usize)
        requires
            size * size <= usize::MAX,
        ensures
            final(self).wf(),
            final(self)@ == TypeTable::blank(size as nat),
    {
        self.colors = filled(size, Color::new_white());
        self.attract = filled(size * size, 0i64);
        self.min_r = filled(size * size, 0i64);
        self.max_r = filled(size * size, 0i64);
    }

    /// The number of types.
    pub fn size(&self) -> (n: usize)
        ensures
            n == self@.size(),
    {
        self.colors.len()
    }

    /// The number of ordered pairs of types, which is the number of cells of
    /// each matrix.
    pub fn pairs(&self) -> (n: usize)
        requires
            self.wf(),
        ensures
            n == self@.size() * self@.size(),
    {
        self.attract.len()
    }

    /// The colour of type `index`, if there is such a type.
    pub fn get_color(&self, index: usize) -> (color: Option<&Color>)
        ensures
            index < self@.size() ==> color == Some(&self@.colors[index as int]),
            index >= self@.size() ==> color.is_none(),
    {
        if index < self.colors.len() {
            Some(&self.colors[index])
        } else {
            None
        }
    }

    /// The colour of type `index` for changing it, if there is such a type.
    pub fn get_color_mut(&mut self, index: usize) -> (color: Option<&mut Color>)
        ensures
            index >= old(self)@.size() ==> color.is_none() && final(self)@ == old(self)@,
            index < old(self)@.size() ==> color.is_some() && *color.unwrap() == old(
                self,
            )@.colors[index as int] && final(self)@ == (TypeTable {
                colors: old(self)@.colors.update(index as int, *final(color.unwrap())),
                ..old(self)@
            }),
    {
        if index < self.colors.len() {
            Some(&mut self.colors[index])
        } else {
            None
        }
    }

    /// Gives type `index` the colour `value`.
    pub fn set_color(&mut self, index: usize, value: Color)
        requires
            index < old(self)@.size(),
        ensures
            final(self)@ == (TypeTable {
                colors: old(self)@.colors.update(index as int, value),
                ..old(self)@
            }),
    {
        self.colors.set(index, value);
    }

    /// Where the cell of the pair `(i, j)` lies, if both are types.
    fn cell(&self, i: usize, j: usize) -> (at: Option<usize>)
        requires
            self.wf(),
        ensures
            self@.has(i as int, j as int) ==> at.is_some() && at.unwrap() as int == self@.cell(
                i as int,
                j as int,
            ) && at.unwrap() < self@.attract.len(),
            !self@.has(i as int, j as int) ==> at.is_none(),
    {
        let size: usize = self.colors.len();
        if i < size && j < size {
            proof {
                lemma_cells(size as int, i as int, j as int, i as int, j as int);
                assert(0 <= i * size <= i * size + j) by (nonlinear_arith)
                    requires
                        0 <= i,
                        0 <= size,
                        0 <= j,
                ;
                assert(self.attract.len() == size * size);
            }
            Some(i * size + j)
        } else {
            None
        }
    }

    /// How strongly type `i` is drawn towards type `j`, if both are types.
    pub fn get_attract(&self, i: usize, j: usize) -> (value: Option<&i64>)
        requires
            self.wf(),
        ensures
            self@.has(i as int, j as int) ==> value == Some(&self@.attract_at(i as int, j as int)),
            !self@.has(i as int, j as int) ==> value.is_none(),
    {
        match self.cell(i, j) {
            Some(at) => Some(&self.attract[at]),
            None => None,
        }
    }

    /// Sets how strongly type `i` is drawn towards type `j`.
    pub fn set_attract(&mut self, i: usize, j: usize, value: i64)
        requires
            old(self).wf(),
            old(self)@.has(i as int, j as int),
        ensures
            final(self).wf(),
            final(self)@ == (TypeTable {
                attract: old(self)@.attract.update(old(self)@.cell(i as int, j as int), value),
                ..old(self)@
            }),
    {
        let at: usize = self.cell(i, j).unwrap();
        self.attract.set(at, value);
    }

    /// The inner radius of the pair `(i, j)`, if both are types.
    pub fn get_min_r(&self, i: usize, j: usize) -> (value: Option<&i64>)
        requires
            self.wf(),
        ensures
            self@.has(i as int, j as int) ==> value == Some(&self@.min_r_at(i as int, j as int)),
            !self@.has(i as int, j as int) ==> value.is_none(),
    {
        match self.cell(i, j) {
            Some(at) => Some(&self.min_r[at]),
            None => None,
        }
    }

    /// Sets the inner radius of the pair `(i, j)`.
    pub fn set_min_r(&mut self, i: usize, j: usize, value: i64)
        requires
            old(self).wf(),
            old(self)@.has(i as int, j as int),
        ensures
            final(self).wf(),
            final(self)@ == (TypeTable {
                min_r: old(self)@.min_r.update(old(self)@.cell(i as int, j as int), value),
                ..old(self)@
            }),
    {
        let at: usize = self.cell(i, j).unwrap();
        self.min_r.set(at, value);
    }

    /// The outer radius of the pair `(i, j)`, if both are types.
    pub fn get_max_r(&self, i: usize, j: usize) -> (value: Option<&i64>)
        requires
            self.wf(),
        ensures
            self@.has(i as int, j as int) ==> value == Some(&self@.max_r_at(i as int, j as int)),
            !self@.has(i as int, j as int) ==> value.is_none(),
    {
        match self.cell(i, j) {
            Some(at) => Some(&self.max_r[at]),
            None => None,
        }
    }

    /// Sets the outer radius of the pair `(i, j)`.
    pub fn set_max_r(&mut self, i: usize, j: usize, value: i64)
        requires
            old(self).wf(),
            old(self)@.has(i as int, j as int),
        ensures
            final(self).wf(),
            final(self)@ == (TypeTable {
                max_r: old(self)@.max_r.update(old(self)@.cell(i as int, j as int), value),
                ..old(self)@
            }),
    {
        let at: usize = self.cell(i, j).unwrap();
        self.max_r.set(at, value);
    }
}

} // verus!
