//! Where the confirmation bubble appears and in what shape, from the bubble style and position
//! settings. The pixel position on the monitor under the cursor is worked out around the
//! library from the anchors chosen here.

use vstd::prelude::*;
use crate::text::{chars_of, contains, contains_chars, eq_str, opt_string};

verus! {

/// The style used when none is set.
pub const DEFAULT_BUBBLE_STYLE: &'static str = "circle";

/// The position used when none is set.
pub const DEFAULT_BUBBLE_POSITION: &'static str = "bottom-right";

/// Gap, in logical points, between the bubble and the screen edge.
pub const BUBBLE_MARGIN: u32 = 20;

/// Height kept free for the menu bar above a bubble at the top.
pub const MENU_BAR_HEIGHT: u32 = 30;

/// Height kept free for the Dock below a bubble at the bottom.
pub const DOCK_HEIGHT: u32 = 60;

/// Which edge, or the centre, the bubble keeps to horizontally.
#[derive(Clone, Copy, Debug, PartialEq, Eq, Structural)]
pub enum HorizontalAnchor {
    Left,
    Center,
    Right,
}

/// Which edge the bubble keeps to vertically.
#[derive(Clone, Copy, Debug, PartialEq, Eq, Structural)]
pub enum VerticalAnchor {
    Top,
    Bottom,
}

/// The bubble window to create. `try_football` asks for the football windows first; the circle
/// or bar window described by the other fields is the one used otherwise, and the one the
/// football style falls back to.
#[derive(Clone, Copy, Debug, PartialEq, Eq, Structural)]
pub struct BubblePlacement {
    pub try_football: bool,
    pub circle: bool,
    pub width: u32,
    pub height: u32,
    pub horizontal: HorizontalAnchor,
    pub vertical: VerticalAnchor,
}

pub open spec fn setting_or(s: Option<Seq<char>>, default: Seq<char>) -> Seq<char> {
    match s {
        Some(v) => v,
        None => default,
    }
}

pub open spec fn horizontal_of(position: Seq<char>) -> HorizontalAnchor {
    if position == "bottom-left"@ || position == "top-left"@ {
        HorizontalAnchor::Left
    } else if position == "bottom-center"@ || position == "top-center"@ {
        HorizontalAnchor::Center
    } else {
        HorizontalAnchor::Right
    }
}

pub open spec fn vertical_of(position: Seq<char>) -> VerticalAnchor {
    if position == "top-left"@ || position == "top-center"@ || position == "top-right"@ {
        VerticalAnchor::Top
    } else {
        VerticalAnchor::Bottom
    }
}

/// The placement for the stored style and position settings. Any style other than `bar` is
/// drawn as a 64-point circle window; the bar is 340 by 72. Positions other than the six named
/// ones place the bubble at the bottom right.
pub open spec fn placement(style: Option<Seq<char>>, position: Option<Seq<char>>) -> BubblePlacement {
    let st = setting_or(style, DEFAULT_BUBBLE_STYLE@);
    let pos = setting_or(position, DEFAULT_BUBBLE_POSITION@);
    let circle = st != "bar"@;
    BubblePlacement {
        try_football: st == "football"@,
        circle,
        width: if circle {
            64
        } else {
            340
        },
        height: if circle {
            64
        } else {
            72
        },
        horizontal: horizontal_of(pos),
        vertical: vertical_of(pos),
    }
}

fn setting_chars(s: &Option<String>, default: &str) -> (r: Vec<char>)
    ensures
        r@ == setting_or(opt_string(*s), default@),
{
    match s {
        Some(v) => chars_of(v.as_str()),
        None => chars_of(default),
    }
}

pub fn bubble_placement(style: &Option<String>, position: &Option<String>) -> (r: BubblePlacement)
    ensures
        r == placement(opt_string(*style), opt_string(*position)),
{
    let st = setting_chars(style, DEFAULT_BUBBLE_STYLE);
    let pos = setting_chars(position, DEFAULT_BUBBLE_POSITION);
    let circle = !eq_str(&st, "bar");
    let horizontal = if eq_str(&pos, "bottom-left") || eq_str(&pos, "top-left") {
        HorizontalAnchor::Left
    } else if eq_str(&pos, "bottom-center") || eq_str(&pos, "top-center") {
        HorizontalAnchor::Center
    } else {
        HorizontalAnchor::Right
    };
    let vertical = if eq_str(&pos, "top-left") || eq_str(&pos, "top-center") || eq_str(
        &pos,
        "top-right",
    ) {
        VerticalAnchor::Top
    } else {
        VerticalAnchor::Bottom
    };
    BubblePlacement {
        try_football: eq_str(&st, "football"),
        circle,
        width: if circle {
            64
        } else {
            340
        },
        height: if circle {
            64
        } else {
            72
        },
        horizontal,
        vertical,
    }
}

/// The side the football goal is drawn on: left when the position setting mentions it.
pub fn football_side(position: &str) -> (r: &'static str)
    ensures
        r@ == (if contains(position@, "left"@) {
            "left"@
        } else {
            "right"@
        }),
{
    if contains_chars(&chars_of(position), &chars_of("left")) {
        "left"
    } else {
        "right"
    }
}

} // verus!
