//! Fixed presentation configuration: colors (packed sRGB, `0xRRGGBB`), sizes
//! in whole pixels, and the pointer-interaction state of a widget together
//! with the pure rule that maps it to a background color.

use vstd::prelude::*;

verus! {

/// Corner radius of the menu panel and of every button, in pixels.
pub const BORDER_RADIUS_PIXEL: u32 = 25;
/// Border thickness of the menu panel and of every button, in pixels.
pub const BORDER_PX: u32 = 3;
/// Border color: black.
pub const BORDER_COLOR: u32 = 0x000000;
/// Button label color: black.
pub const TEXT_COLOR: u32 = 0x000000;
/// Resting background color of a button: beige.
pub const BUTTON_COLOR: u32 = 0xF5F5DC;
/// Background color of a button under the pointer: floral white.
pub const BUTTON_HOVER_COLOR: u32 = 0xFFFAF0;
/// Background color of the menu panel: bisque.
pub const MENU_COLOR: u32 = 0xFFE4C4;
/// Background color of the full-viewport container behind the menu: mid gray.
pub const BACKDROP_COLOR: u32 = 0x808080;
/// Color of the gameplay placeholder rectangle: purple.
pub const RECT_COLOR: u32 = 0x800080;

/// Width of a button, in pixels.
pub const BUTTON_WIDTH_PX: u32 = 120;
/// Height of a button, in pixels.
pub const BUTTON_HEIGHT_PX: u32 = 60;
/// Padding inside the menu panel, in pixels.
pub const MENU_PADDING_PX: u32 = 40;
/// Vertical gap between buttons in the menu panel, in pixels.
pub const MENU_ROW_GAP_PX: u32 = 30;
/// Font size of a button label, in pixels.
pub const FONT_SIZE_PX: u32 = 33;
/// Side length of the gameplay placeholder rectangle, in pixels.
pub const RECT_SCALE_PX: u32 = 128;

/// Pointer-derived status of a widget: not under the pointer, under it, or
/// held down.
#[derive(Clone, Copy, Debug, PartialEq, Eq, Structural)]
pub enum Interaction {
    Idle,
    Hovered,
    Pressed,
}

/// The color a button shows for a given interaction state: hovered buttons
/// take the hover color, idle buttons the base color, and a pressed button
/// keeps whatever it last showed.
pub open spec fn render_color(i: Interaction, current: u32) -> u32 {
    match i {
        Interaction::Hovered => BUTTON_HOVER_COLOR,
        Interaction::Idle => BUTTON_COLOR,
        Interaction::Pressed => current,
    }
}

/// Law: for every interaction state other than `Pressed`, the rendered color
/// is a function of that state alone — the color previously shown plays no
/// part — and it is the hover color for `Hovered`, the base color for `Idle`.
pub proof fn lemma_render_color_state_pure(i: Interaction, c1: u32, c2: u32)
    requires
        i != Interaction::Pressed,
    ensures
        render_color(i, c1) == render_color(i, c2),
        i == Interaction::Hovered ==> render_color(i, c1) == BUTTON_HOVER_COLOR,
        i == Interaction::Idle ==> render_color(i, c1) == BUTTON_COLOR,
{
}

} // verus!
