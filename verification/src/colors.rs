use vstd::prelude::*;

verus! {

/// A colour given by its red, green and blue components.
#[derive(Clone, Copy, Debug, PartialEq, Eq, Structural)]
pub struct Rgb {
    pub red: u8,
    pub green: u8,
    pub blue: u8,
}

/// Number of colours that the curves of a comparison plot cycle through.
pub const NUM_COLORS: usize = 8;

/// The colours of the curves of a comparison plot, in the order they are used.
pub open spec fn comparison_palette() -> Seq<Rgb> {
    seq![
        Rgb { red: 178, green: 34, blue: 34 },
        Rgb { red: 46, green: 139, blue: 87 },
        Rgb { red: 0, green: 139, blue: 139 },
        Rgb { red: 255, green: 215, blue: 0 },
        Rgb { red: 0, green: 0, blue: 139 },
        Rgb { red: 220, green: 20, blue: 60 },
        Rgb { red: 139, green: 0, blue: 139 },
        Rgb { red: 0, green: 255, blue: 127 },
    ]
}

/// The colour of the `index`-th curve of a comparison plot: the palette is
/// used in order and starts again after its last colour.
pub fn comparison_color(index: usize) -> (color: Rgb)
    ensures
        color == comparison_palette()[(index % NUM_COLORS) as int],
{
    let slot = index % NUM_COLORS;
    if slot == 0 {
        Rgb { red: 178, green: 34, blue: 34 }
    } else if slot == 1 {
        Rgb { red: 46, green: 139, blue: 87 }
    } else if slot == 2 {
        Rgb { red: 0, green: 139, blue: 139 }
    } else if slot == 3 {
        Rgb { red: 255, green: 215, blue: 0 }
    } else if slot == 4 {
        Rgb { red: 0, green: 0, blue: 139 }
    } else if slot == 5 {
        Rgb { red: 220, green: 20, blue: 60 }
    } else if slot == 6 {
        Rgb { red: 139, green: 0, blue: 139 }
    } else {
        Rgb { red: 0, green: 255, blue: 127 }
    }
}

/// Law: curves whose indices differ by a multiple of the palette's length get
/// the same colour, and any `NUM_COLORS` consecutive curves get pairwise
/// different colours.
pub proof fn lemma_palette_cycle(a: int, b: int)
    requires
        0 <= a,
        0 <= b,
    ensures
        a % (NUM_COLORS as int) == b % (NUM_COLORS as int) ==> comparison_palette()[a % (
        NUM_COLORS as int)] == comparison_palette()[b % (NUM_COLORS as int)],
        a < b < a + NUM_COLORS ==> comparison_palette()[a % (NUM_COLORS as int)]
            != comparison_palette()[b % (NUM_COLORS as int)],
{
    let p = comparison_palette();
    assert(forall|i: int, j: int| 0 <= i < j < 8 ==> #[trigger] p[i] != #[trigger] p[j]);
    if a < b < a + NUM_COLORS {
        assert(a % 8 != b % 8) by (nonlinear_arith)
            requires
                0 <= a < b < a + 8,
        ;
    }
}


/// Law: the palette holds, in order, firebrick, sea green, dark cyan, gold,
/// dark blue, crimson, dark magenta and spring green; the curve of index `i`
/// gets the colour at `i % 8`.
pub proof fn lemma_palette_values()
    ensures
        comparison_palette().len() == NUM_COLORS,
        comparison_palette()[0] == (Rgb { red: 178, green: 34, blue: 34 }),
        comparison_palette()[1] == (Rgb { red: 46, green: 139, blue: 87 }),
        comparison_palette()[2] == (Rgb { red: 0, green: 139, blue: 139 }),
        comparison_palette()[3] == (Rgb { red: 255, green: 215, blue: 0 }),
        comparison_palette()[4] == (Rgb { red: 0, green: 0, blue: 139 }),
        comparison_palette()[5] == (Rgb { red: 220, green: 20, blue: 60 }),
        comparison_palette()[6] == (Rgb { red: 139, green: 0, blue: 139 }),
        comparison_palette()[7] == (Rgb { red: 0, green: 255, blue: 127 }),
{
}

} // verus!
