//! Human-readable base names of preset geometries, used to auto-name new shapes.
use vstd::prelude::*;
use crate::enums::str_eq;

verus! {

/// The base name for a preset geometry token; "Freeform" for tokens not in the table.
pub open spec fn shape_name_spec(prst: Seq<char>) -> Seq<char> {
    if prst == "rect"@ { "Rectangle"@ }
    else if prst == "roundRect"@ { "Rounded Rectangle"@ }
    else if prst == "ellipse"@ { "Oval"@ }
    else if prst == "diamond"@ { "Diamond"@ }
    else if prst == "triangle"@ { "Isosceles Triangle"@ }
    else if prst == "rtTriangle"@ { "Right Triangle"@ }
    else if prst == "parallelogram"@ { "Parallelogram"@ }
    else if prst == "trapezoid"@ { "Trapezoid"@ }
    else if prst == "pentagon"@ { "Regular Pentagon"@ }
    else if prst == "hexagon"@ { "Hexagon"@ }
    else if prst == "octagon"@ { "Octagon"@ }
    else if prst == "star4"@ { "4-Point Star"@ }
    else if prst == "star5"@ { "5-Point Star"@ }
    else if prst == "star6"@ { "6-Point Star"@ }
    else if prst == "cloud"@ { "Cloud"@ }
    else if prst == "heart"@ { "Heart"@ }
    else if prst == "sun"@ { "Sun"@ }
    else if prst == "moon"@ { "Moon"@ }
    else if prst == "arc"@ { "Arc"@ }
    else if prst == "donut"@ { "Donut"@ }
    else if prst == "plus"@ { "Cross"@ }
    else if prst == "can"@ { "Can"@ }
    else if prst == "cube"@ { "Cube"@ }
    else if prst == "frame"@ { "Frame"@ }
    else if prst == "leftArrow"@ { "Left Arrow"@ }
    else if prst == "rightArrow"@ { "Right Arrow"@ }
    else if prst == "upArrow"@ { "Up Arrow"@ }
    else if prst == "downArrow"@ { "Down Arrow"@ }
    else { "Freeform"@ }
}

/// Map a preset geometry name to a human-readable base name for auto-naming.
pub fn shape_name_for_prst(prst: &str) -> (r: &'static str)
    ensures
        r@ == shape_name_spec(prst@),
{
    if str_eq(prst, "rect") { "Rectangle" }
    else if str_eq(prst, "roundRect") { "Rounded Rectangle" }
    else if str_eq(prst, "ellipse") { "Oval" }
    else if str_eq(prst, "diamond") { "Diamond" }
    else if str_eq(prst, "triangle") { "Isosceles Triangle" }
    else if str_eq(prst, "rtTriangle") { "Right Triangle" }
    else if str_eq(prst, "parallelogram") { "Parallelogram" }
    else if str_eq(prst, "trapezoid") { "Trapezoid" }
    else if str_eq(prst, "pentagon") { "Regular Pentagon" }
    else if str_eq(prst, "hexagon") { "Hexagon" }
    else if str_eq(prst, "octagon") { "Octagon" }
    else if str_eq(prst, "star4") { "4-Point Star" }
    else if str_eq(prst, "star5") { "5-Point Star" }
    else if str_eq(prst, "star6") { "6-Point Star" }
    else if str_eq(prst, "cloud") { "Cloud" }
    else if str_eq(prst, "heart") { "Heart" }
    else if str_eq(prst, "sun") { "Sun" }
    else if str_eq(prst, "moon") { "Moon" }
    else if str_eq(prst, "arc") { "Arc" }
    else if str_eq(prst, "donut") { "Donut" }
    else if str_eq(prst, "plus") { "Cross" }
    else if str_eq(prst, "can") { "Can" }
    else if str_eq(prst, "cube") { "Cube" }
    else if str_eq(prst, "frame") { "Frame" }
    else if str_eq(prst, "leftArrow") { "Left Arrow" }
    else if str_eq(prst, "rightArrow") { "Right Arrow" }
    else if str_eq(prst, "upArrow") { "Up Arrow" }
    else if str_eq(prst, "downArrow") { "Down Arrow" }
    else { "Freeform" }
}

} // verus!
