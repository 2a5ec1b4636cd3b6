//! The colours that pieces are painted in.

use vstd::prelude::*;
use crate::sampling::random_index;

verus! {

/// A colour: red, green and blue, each in hundredths of full intensity.
#[derive(Clone, Copy, Debug, PartialEq, Eq, Structural)]
pub struct Color {
    pub red: u8,
    pub green: u8,
    pub blue: u8,
}

/// The colours of the standard palette.
pub open spec fn standard_colors() -> Seq<Color> {
    seq![
        Color { red: 25, green: 90, blue: 39 },
        Color { red: 85, green: 25, blue: 35 },
        Color { red: 27, green: 59, blue: 82 },
        Color { red: 89, green: 90, blue: 27 },
        Color { red: 13, green: 89, blue: 94 },
        Color { red: 94, green: 55, blue: 27 },
    ]
}

/// A palette: the colours that a new piece may get. It is never empty.
pub struct Materials {
    colors: Vec<Color>,
}

impl View for Materials {
    type V = Seq<Color>;

    closed spec fn view(&self) -> Seq<Color> {
        self.colors@
    }
}

impl Materials {
    /// The palette is well formed: it holds a colour.
    pub open spec fn wf(&self) -> bool {
        self@.len() > 0
    }

    /// The colour that a draw selects: the draw counts round the palette.
    pub open spec fn pick(&self, draw: usize) -> Color {
        self@[draw as int % self@.len() as int]
    }

    /// A palette of the given colours, or nothing if there is none.
    pub fn new(colors: Vec<Color>) -> (palette: Option<Materials>)
        ensures
            palette is Some <==> colors@.len() > 0,
            palette is Some ==> palette->0.wf() && palette->0@ == colors@,
    {
        if colors.len() == 0 {
            None
        } else {
            Some(Materials { colors })
        }
    }

    /// The standard palette of six colours.
    pub fn standard() -> (palette: Materials)
        ensures
            palette.wf(),
            palette@ == standard_colors(),
    {
        let mut colors: Vec<Color> = Vec::new();
        colors.push(Color { red: 25, green: 90, blue: 39 });
        colors.push(Color { red: 85, green: 25, blue: 35 });
        colors.push(Color { red: 27, green: 59, blue: 82 });
        colors.push(Color { red: 89, green: 90, blue: 27 });
        colors.push(Color { red: 13, green: 89, blue: 94 });
        colors.push(Color { red: 94, green: 55, blue: 27 });
        assert(colors@ =~= standard_colors());
        Materials { colors }
    }

    /// The number of colours.
    pub fn len(&self) -> (n: usize)
        ensures
            n == self@.len(),
    {
        self.colors.len()
    }

    /// The colour that the draw selects.
    pub fn color(&self, draw: usize) -> (color: Color)
        requires
            self.wf(),
        ensures
            color == self.pick(draw),
    {
        self.colors[draw % self.colors.len()]
    }

    /// A colour drawn at random, each draw on its own.
    pub fn next_color(&self) -> (color: Color)
        requires
            self.wf(),
        ensures
            exists|draw: usize| color == self.pick(draw),
    {
        let draw = random_index();
        let color = self.color(draw);
        assert(color == self.pick(draw));
        color
    }
}

} // verus!
