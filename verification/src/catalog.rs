//! The shapes that pieces are made in.

use vstd::prelude::*;
use crate::geometry::{RelativePosition, BOARD_WIDTH, GRID_SIZE, SPAWN_X, SPAWN_Y};
use crate::sampling::random_index;

verus! {

/// What is wrong with a pattern of offsets.
#[derive(Clone, Copy, Debug, PartialEq, Eq, Structural)]
pub enum ShapeError {
    /// It does not hold exactly four offsets.
    WrongCellCount,
    /// An offset would put its cell off the field when the piece is spawned.
    OutOfReach,
    /// No offset is (0, 0).
    MissingAnchor,
}

/// What is wrong with a list of patterns.
#[derive(Clone, Copy, Debug, PartialEq, Eq, Structural)]
pub enum CatalogError {
    /// It holds no pattern.
    Empty,
    /// The pattern at `index` is the first that is malformed.
    Malformed { index: usize, defect: ShapeError },
}

/// The offset keeps its cell on the field when the anchor is at the spawn
/// position.
pub open spec fn in_reach(rot_x: int, rot_y: int) -> bool {
    0 <= SPAWN_X + rot_x < BOARD_WIDTH && 0 <= SPAWN_Y + rot_y < GRID_SIZE
}

/// Every offset of the pattern is in reach.
pub open spec fn all_in_reach(pattern: Seq<(i32, i32)>) -> bool {
    forall|i: int| 0 <= i < pattern.len() ==> in_reach((#[trigger] pattern[i]).0 as int, pattern[i].1 as int)
}

/// The pattern holds the offset (0, 0).
pub open spec fn has_anchor(pattern: Seq<(i32, i32)>) -> bool {
    exists|i: int| 0 <= i < pattern.len() && #[trigger] pattern[i] == (0i32, 0i32)
}

/// What is wrong with a pattern, if anything.
pub open spec fn shape_defect(pattern: Seq<(i32, i32)>) -> Option<ShapeError> {
    if pattern.len() != 4 {
        Some(ShapeError::WrongCellCount)
    } else if !all_in_reach(pattern) {
        Some(ShapeError::OutOfReach)
    } else if !has_anchor(pattern) {
        Some(ShapeError::MissingAnchor)
    } else {
        None
    }
}

/// The patterns of the seven standard shapes: the bar, the two hooks, the two
/// steps, the square and the tee.
pub open spec fn standard_patterns() -> Seq<Seq<(i32, i32)>> {
    seq![
        seq![(0i32, 0i32), (0i32, -1i32), (0i32, 1i32), (0i32, 2i32)],
        seq![(0i32, 0i32), (0i32, -1i32), (0i32, 1i32), (-1i32, 1i32)],
        seq![(0i32, 0i32), (0i32, -1i32), (0i32, 1i32), (1i32, 1i32)],
        seq![(0i32, 0i32), (0i32, -1i32), (1i32, 0i32), (1i32, 1i32)],
        seq![(0i32, 0i32), (1i32, 0i32), (0i32, 1i32), (1i32, -1i32)],
        seq![(0i32, 0i32), (0i32, 1i32), (1i32, 0i32), (1i32, 1i32)],
        seq![(0i32, 0i32), (-1i32, 0i32), (1i32, 0i32), (0i32, 1i32)],
    ]
}

/// A shape: four offsets from the anchor, one of them the anchor itself, each
/// in reach.
#[derive(Clone, Copy, Debug)]
pub struct Shape {
    offsets: [(i32, i32); 4],
}

impl View for Shape {
    type V = Seq<(i32, i32)>;

    closed spec fn view(&self) -> Seq<(i32, i32)> {
        self.offsets@
    }
}

impl Shape {
    /// The shape is well formed.
    pub open spec fn wf(&self) -> bool {
        shape_defect(self@) is None
    }

    /// Checks a pattern and makes a shape of it.
    pub fn new(pattern: &Vec<(i32, i32)>) -> (made: Result<Shape, ShapeError>)
        ensures
            match made {
                Ok(shape) => shape_defect(pattern@) is None && shape@ == pattern@ && shape.wf(),
                Err(defect) => shape_defect(pattern@) == Some(defect),
            },
    {
        if pattern.len() != 4 {
            return Err(ShapeError::WrongCellCount);
        }
        let mut anchored = false;
        let mut i: usize = 0;
        while i < 4
            invariant
                0 <= i <= 4,
                pattern@.len() == 4,
                forall|j: int| 0 <= j < i ==> in_reach((#[trigger] pattern@[j]).0 as int, pattern@[j].1 as int),
                anchored <==> exists|j: int| 0 <= j < i && #[trigger] pattern@[j] == (0i32, 0i32),
            decreases 4 - i,
        {
            let (rot_x, rot_y) = pattern[i];
            if !(-SPAWN_X <= rot_x && rot_x < BOARD_WIDTH - SPAWN_X && -SPAWN_Y <= rot_y && rot_y < GRID_SIZE
                - SPAWN_Y) {
                return Err(ShapeError::OutOfReach);
            }
            if rot_x == 0 && rot_y == 0 {
                anchored = true;
            }
            i += 1;
        }
        if !anchored {
            return Err(ShapeError::MissingAnchor);
        }
        let shape = Shape { offsets: [pattern[0], pattern[1], pattern[2], pattern[3]] };
        assert(shape@ =~= pattern@);
        Ok(shape)
    }

    /// The offset of cell `i`.
    pub fn offset(&self, i: usize) -> (offset: RelativePosition)
        requires
            i < 4,
        ensures
            offset.rot_x == self@[i as int].0,
            offset.rot_y == self@[i as int].1,
    {
        let (rot_x, rot_y) = self.offsets[i];
        RelativePosition { rot_x, rot_y }
    }

    /// The four offsets.
    pub fn offsets(&self) -> (out: Vec<(i32, i32)>)
        ensures
            out@ == self@,
    {
        let mut out: Vec<(i32, i32)> = Vec::new();
        out.push(self.offsets[0]);
        out.push(self.offsets[1]);
        out.push(self.offsets[2]);
        out.push(self.offsets[3]);
        assert(out@ =~= self@);
        out
    }
}

/// The catalogue of shapes that pieces are drawn from. It is never empty, and
/// every shape in it is well formed.
pub struct BlockPatterns {
    shapes: Vec<Shape>,
}

impl View for BlockPatterns {
    type V = Seq<Shape>;

    closed spec fn view(&self) -> Seq<Shape> {
        self.shapes@
    }
}

impl BlockPatterns {
    /// The catalogue is well formed.
    pub open spec fn wf(&self) -> bool {
        self@.len() > 0 && forall|i: int| 0 <= i < self@.len() ==> (#[trigger] self@[i]).wf()
    }

    /// The shape that a draw selects: the draw counts round the catalogue.
    pub open spec fn pick(&self, draw: usize) -> Shape {
        self@[draw as int % self@.len() as int]
    }

    /// Checks a list of patterns and makes a catalogue of it. An empty list is
    /// refused, and so is a list with a malformed pattern: the error names the
    /// first one.
    pub fn new(patterns: &Vec<Vec<(i32, i32)>>) -> (made: Result<BlockPatterns, CatalogError>)
        ensures
            match made {
                Ok(catalog) => {
                    &&& catalog.wf()
                    &&& catalog@.len() == patterns@.len()
                    &&& forall|i: int| 0 <= i < patterns@.len() ==> (#[trigger] catalog@[i])@ == patterns@[i]@
                },
                Err(CatalogError::Empty) => patterns@.len() == 0,
                Err(CatalogError::Malformed { index, defect }) => {
                    &&& index < patterns@.len()
                    &&& shape_defect(patterns@[index as int]@) == Some(defect)
                    &&& forall|i: int| 0 <= i < index ==> shape_defect((#[trigger] patterns@[i])@) is None
                },
            },
    {
        if patterns.len() == 0 {
            return Err(CatalogError::Empty);
        }
        let mut shapes: Vec<Shape> = Vec::new();
        let mut i: usize = 0;
        while i < patterns.len()
            invariant
                0 <= i <= patterns@.len(),
                shapes@.len() == i,
                forall|j: int| 0 <= j < i ==> (#[trigger] shapes@[j]).wf(),
                forall|j: int| 0 <= j < i ==> (#[trigger] shapes@[j])@ == patterns@[j]@,
                forall|j: int| 0 <= j < i ==> shape_defect((#[trigger] patterns@[j])@) is None,
            decreases patterns@.len() - i,
        {
            match Shape::new(&patterns[i]) {
                Ok(shape) => {
                    shapes.push(shape);
                },
                Err(defect) => {
                    return Err(CatalogError::Malformed { index: i, defect });
                },
            }
            i += 1;
        }
        Ok(BlockPatterns { shapes })
    }

    /// The catalogue of the seven standard shapes.
    pub fn standard() -> (catalog: BlockPatterns)
        ensures
            catalog.wf(),
            catalog@.len() == 7,
            forall|i: int| 0 <= i < 7 ==> (#[trigger] catalog@[i])@ == standard_patterns()[i],
    {
        let mut shapes: Vec<Shape> = Vec::new();
        shapes.push(Shape { offsets: [(0, 0), (0, -1), (0, 1), (0, 2)] });
        shapes.push(Shape { offsets: [(0, 0), (0, -1), (0, 1), (-1, 1)] });
        shapes.push(Shape { offsets: [(0, 0), (0, -1), (0, 1), (1, 1)] });
        shapes.push(Shape { offsets: [(0, 0), (0, -1), (1, 0), (1, 1)] });
        shapes.push(Shape { offsets: [(0, 0), (1, 0), (0, 1), (1, -1)] });
        shapes.push(Shape { offsets: [(0, 0), (0, 1), (1, 0), (1, 1)] });
        shapes.push(Shape { offsets: [(0, 0), (-1, 0), (1, 0), (0, 1)] });
        proof {
            assert forall|i: int| 0 <= i < 7 implies (#[trigger] shapes@[i])@ == standard_patterns()[i] && shapes@[i].wf() by {
                assert(shapes@[i]@ =~= standard_patterns()[i]);
                assert(shapes@[i]@[0] == (0i32, 0i32));
            }
        }
        BlockPatterns { shapes }
    }

    /// The number of shapes.
    pub fn len(&self) -> (n: usize)
        ensures
            n == self@.len(),
    {
        self.shapes.len()
    }

    /// The shape that the draw selects.
    pub fn shape(&self, draw: usize) -> (shape: Shape)
        requires
            self.wf(),
        ensures
            shape == self.pick(draw),
            shape.wf(),
    {
        self.shapes[draw % self.shapes.len()]
    }

    /// A shape drawn at random, each draw on its own: the same shape may
    /// come twice in a row.
    pub fn next_block(&self) -> (shape: Shape)
        requires
            self.wf(),
        ensures
            shape.wf(),
            exists|draw: usize| shape == self.pick(draw),
    {
        let draw = random_index();
        let shape = self.shape(draw);
        assert(shape == self.pick(draw));
        shape
    }
}

} // verus!
