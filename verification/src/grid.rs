//! Positions and the bounded 2D terrain grid with safe indexed access.
use vstd::prelude::*;
use crate::terrain::Terrain;

verus! {

/// A coordinate pair. `x` is the column, `y` the row; equality is the only
/// comparison ever used on it.
#[derive(Clone, Copy, PartialEq, Eq, Structural, Debug)]
pub struct Position {
    pub x: usize,
    pub y: usize,
}

/// Mathematical model of a grid: a row-major sequence of cells together
/// with its dimensions.
#[verifier::ext_equal]
pub ghost struct GridModel {
    pub width: nat,
    pub height: nat,
    pub cells: Seq<Terrain>,
}

impl GridModel {
    pub open spec fn wf(self) -> bool {
        &&& self.cells.len() == self.width * self.height
        &&& self.width * self.height <= usize::MAX
    }

    pub open spec fn in_bounds(self, x: int, y: int) -> bool {
        0 <= x < self.width && 0 <= y < self.height
    }

    /// Row-major index of a coordinate pair.
    pub open spec fn idx(self, x: int, y: int) -> int {
        y * self.width + x
    }

    pub open spec fn cell(self, x: int, y: int) -> Terrain {
        self.cells[self.idx(x, y)]
    }

    pub open spec fn pos_in_bounds(self, p: Position) -> bool {
        self.in_bounds(p.x as int, p.y as int)
    }

    /// Same dimensions as another grid.
    pub open spec fn same_dims(self, other: GridModel) -> bool {
        self.width == other.width && self.height == other.height
    }
}

/// A row-major index stays inside a well-formed grid.
pub proof fn lemma_idx_in_range(w: int, h: int, x: int, y: int)
    requires
        0 <= x < w,
        0 <= y < h,
    ensures
        0 <= y * w + x < w * h,
        (y * w + x) % w == x,
        (y * w + x) / w == y,
{
    assert(0 <= y * w + x < w * h) by (nonlinear_arith)
        requires 0 <= x < w && 0 <= y < h;
    assert((y * w + x) % w == x && (y * w + x) / w == y) by (nonlinear_arith)
        requires 0 <= x < w && 0 <= y < h;
}

/// A fixed width x height grid of terrain cells, row-major, with
/// out-of-range access returning an absent result rather than faulting.
pub struct TerrainGrid {
    width: usize,
    height: usize,
    data: Vec<Terrain>,
}

impl View for TerrainGrid {
    type V = GridModel;

    closed spec fn view(&self) -> GridModel {
        GridModel { width: self.width as nat, height: self.height as nat, cells: self.data@ }
    }
}

impl TerrainGrid {
    /// A fresh grid with every cell set to `default`.
    pub fn new(width: usize, height: usize, default: Terrain) -> (m: TerrainGrid)
        requires
            width * height <= usize::MAX,
        ensures
            m@.wf(),
            m@.width == width,
            m@.height == height,
            forall|i: int| 0 <= i < m@.cells.len() ==> m@.cells[i] == default,
    {
        let total = width * height;
        let mut data: Vec<Terrain> = Vec::new();
        let mut i: usize = 0;
        while i < total
            invariant
                i <= total,
                data@.len() == i,
                forall|j: int| 0 <= j < i ==> data@[j] == default,
            decreases total - i,
        {
            data.push(default);
            i = i + 1;
        }
        TerrainGrid { width, height, data }
    }

    pub fn width(&self) -> (w: usize)
        ensures
            w == self@.width,
    {
        self.width
    }

    pub fn height(&self) -> (h: usize)
        ensures
            h == self@.height,
    {
        self.height
    }

    /// The cell at (x, y), or nothing when the coordinate is out of range.
    pub fn get_cell(&self, x: usize, y: usize) -> (r: Option<Terrain>)
        requires
            self@.wf(),
        ensures
            r == (if self@.in_bounds(x as int, y as int) {
                Some(self@.cell(x as int, y as int))
            } else {
                None::<Terrain>
            }),
    {
        if x < self.width && y < self.height {
            proof {
                lemma_idx_in_range(self.width as int, self.height as int, x as int, y as int);
            }
            let i = y * self.width + x;
            Some(self.data[i])
        } else {
            None
        }
    }

    /// Writes the cell at `position`; out of range, the grid is unchanged.
    pub fn set_cell(&mut self, position: Position, cell: Terrain)
        requires
            old(self)@.wf(),
        ensures
            final(self)@.wf(),
            final(self)@.same_dims(old(self)@),
            old(self)@.pos_in_bounds(position) ==> final(self)@.cells
                == old(self)@.cells.update(old(self)@.idx(position.x as int, position.y as int), cell),
            !old(self)@.pos_in_bounds(position) ==> final(self)@ == old(self)@,
    {
        if position.x < self.width && position.y < self.height {
            proof {
                lemma_idx_in_range(
                    self.width as int,
                    self.height as int,
                    position.x as int,
                    position.y as int,
                );
            }
            let i = position.y * self.width + position.x;
            self.data.set(i, cell);
        }
    }

    /// A structurally fresh grid holding the same cells.
    pub fn duplicate(&self) -> (m: TerrainGrid)
        requires
            self@.wf(),
        ensures
            m@ == self@,
    {
        let mut data: Vec<Terrain> = Vec::new();
        let mut i: usize = 0;
        let n = self.data.len();
        while i < n
            invariant
                i <= n,
                n == self.data@.len(),
                data@.len() == i,
                forall|j: int| 0 <= j < i ==> data@[j] == self.data@[j],
            decreases n - i,
        {
            data.push(self.data[i]);
            i = i + 1;
        }
        let m = TerrainGrid { width: self.width, height: self.height, data };
        proof {
            assert(m@.cells =~= self@.cells);
            assert(m@ =~= self@);
        }
        m
    }
}

} // verus!
