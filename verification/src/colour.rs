use vstd::prelude::*;

verus! {

/// The colours in which the examples draw.
#[derive(Clone, Copy, Debug, PartialEq, Eq, Structural)]
pub enum Colour {
    Green,
    Black,
    Red,
    Blue,
    Orange,
    Magenta,
    Yellow,
}

/// The colour of a planet of colour number `x`: 1 green, 2 black, 3 red,
/// 4 blue, 5 orange, 6 magenta, 7 yellow, any other black.
pub fn colors_marge(x: i32) -> (colour: Colour)
    ensures
        colour == match x {
            1 => Colour::Green,
            3 => Colour::Red,
            4 => Colour::Blue,
            5 => Colour::Orange,
            6 => Colour::Magenta,
            7 => Colour::Yellow,
            _ => Colour::Black,
        },
{
    match x {
        1 => Colour::Green,
        2 => Colour::Black,
        3 => Colour::Red,
        4 => Colour::Blue,
        5 => Colour::Orange,
        6 => Colour::Magenta,
        7 => Colour::Yellow,
        _ => Colour::Black,
    }
}

/// The colour of a cell of the prey-predator grid of kind `proie_pred`:
/// yellow when empty, green for a prey, red for a predator; any other kind
/// is drawn as empty.
pub fn cell_colour(proie_pred: i32) -> (colour: Colour)
    ensures
        colour == if proie_pred == 1 {
            Colour::Green
        } else if proie_pred == 2 {
            Colour::Red
        } else {
            Colour::Yellow
        },
{
    if proie_pred == 0 {
        Colour::Yellow
    } else if proie_pred == 1 {
        Colour::Green
    } else if proie_pred == 2 {
        Colour::Red
    } else {
        Colour::Yellow
    }
}

} // verus!
