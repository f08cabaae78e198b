//! Text overlays: their styling, placement and animation.
//!
//! Sizes, opacities and normalized positions are `f32` values held as their
//! bits; animating opacity and revealing typewriter text at a progress is
//! floating-point work done by callers.

use vstd::prelude::*;
use crate::project::{is_uuid_v4_text, new_uuid_v4_text};

verus! {

/// Text anchor point.
#[derive(Debug, Clone, Copy, PartialEq, Eq, Structural)]
pub enum TextAnchor {
    TopLeft,
    TopCenter,
    TopRight,
    CenterLeft,
    Center,
    CenterRight,
    BottomLeft,
    BottomCenter,
    BottomRight,
}

/// Slide direction for text animations.
#[derive(Debug, Clone, Copy, PartialEq, Eq, Structural)]
pub enum SlideDirection {
    Left,
    Right,
    Top,
    Bottom,
}


/// The bits of `1.0_f32`.
pub const OPAQUE_BITS: u32 = 0x3F80_0000;

/// The bits of `0.5_f32`.
pub const HALF_BITS: u32 = 0x3F00_0000;

/// Text colour: a `#RRGGBB` code and an opacity.
#[derive(Debug, Clone)]
pub struct TextColor {
    pub hex: String,
    /// The bits of an `f32` opacity.
    pub opacity_bits: u32,
}

impl TextColor {
    /// Opaque white.
    pub fn white() -> (r: Self)
        ensures
            r.hex@ == "#FFFFFF"@,
            r.opacity_bits == OPAQUE_BITS,
    {
        TextColor { hex: String::from_str("#FFFFFF"), opacity_bits: OPAQUE_BITS }
    }

    /// Opaque black.
    pub fn black() -> (r: Self)
        ensures
            r.hex@ == "#000000"@,
            r.opacity_bits == OPAQUE_BITS,
    {
        TextColor { hex: String::from_str("#000000"), opacity_bits: OPAQUE_BITS }
    }

    /// An opaque colour of the code.
    pub fn with_hex(hex: &str) -> (r: Self)
        ensures
            r.hex@ == hex@,
            r.opacity_bits == OPAQUE_BITS,
    {
        TextColor { hex: String::from_str(hex), opacity_bits: OPAQUE_BITS }
    }
}

/// A box behind the text; numbers are the bits of `f32` values.
#[derive(Debug, Clone)]
pub struct TextBackground {
    pub color: String,
    pub opacity_bits: u32,
    pub padding_bits: u32,
    pub corner_radius_bits: u32,
}

/// A position in normalized frame coordinates (0 to 1), as the bits of
/// `f32` values.
#[derive(Debug, Clone, Copy, PartialEq, Eq, Structural)]
pub struct TextPosition {
    pub x_bits: u32,
    pub y_bits: u32,
}

/// The bits of `0.9_f32`: the height of bottom-centred text.
pub const LOW_Y_BITS: u32 = 0x3F66_6666;

/// The bits of `0.1_f32`: the height of top-centred text.
pub const HIGH_Y_BITS: u32 = 0x3DCC_CCCD;

/// The bits of `0.3_f32`: the height of a title.
pub const TITLE_Y_BITS: u32 = 0x3E99_999A;

impl TextPosition {
    /// The centre of the frame.
    pub fn center() -> (r: Self)
        ensures
            r == (TextPosition { x_bits: HALF_BITS, y_bits: HALF_BITS }),
    {
        TextPosition { x_bits: HALF_BITS, y_bits: HALF_BITS }
    }

    /// Centred near the bottom, at 0.9.
    pub fn bottom_center() -> (r: Self)
        ensures
            r == (TextPosition { x_bits: HALF_BITS, y_bits: LOW_Y_BITS }),
    {
        TextPosition { x_bits: HALF_BITS, y_bits: LOW_Y_BITS }
    }

    /// Centred near the top, at 0.1.
    pub fn top_center() -> (r: Self)
        ensures
            r == (TextPosition { x_bits: HALF_BITS, y_bits: HIGH_Y_BITS }),
    {
        TextPosition { x_bits: HALF_BITS, y_bits: HIGH_Y_BITS }
    }

    /// A position given by its coordinates.
    pub fn at(x: u32, y: u32) -> (r: Self)
        ensures
            r == (TextPosition { x_bits: x, y_bits: y }),
    {
        TextPosition { x_bits: x, y_bits: y }
    }
}

/// How text appears; `f32` numbers are held as their bits.
#[derive(Debug, Clone, Copy, PartialEq, Eq, Structural)]
pub enum TextAnimation {
    NoAnimation,
    FadeIn { duration_ms: u64 },
    FadeOut { duration_ms: u64 },
    Typewriter { chars_per_second_bits: u32 },
    SlideIn { direction: SlideDirection, duration_ms: u64 },
    Bounce { height_bits: u32, duration_ms: u64 },
    PopIn { duration_ms: u64 },
}

/// A line around the glyphs.
#[derive(Debug, Clone)]
pub struct TextOutline {
    pub color: String,
    /// The bits of an `f32` width.
    pub width_bits: u32,
}

/// A shadow under the text; numbers are the bits of `f32` values.
#[derive(Debug, Clone)]
pub struct TextShadow {
    pub color: String,
    pub offset_x_bits: u32,
    pub offset_y_bits: u32,
    pub blur_bits: u32,
}

/// The bits of `2.0_f32`: the default shadow offset.
pub const SHADOW_OFFSET_BITS: u32 = 0x4000_0000;

/// The bits of `4.0_f32`: the default shadow blur.
pub const SHADOW_BLUR_BITS: u32 = 0x4080_0000;

/// A black shadow 2 px right and down, blurred by 4 px.
pub open spec fn is_default_shadow(s: TextShadow) -> bool {
    &&& s.color@ == "#000000"@
    &&& s.offset_x_bits == SHADOW_OFFSET_BITS
    &&& s.offset_y_bits == SHADOW_OFFSET_BITS
    &&& s.blur_bits == SHADOW_BLUR_BITS
}

impl Default for TextShadow {
    /// A black shadow 2 px right and down, blurred by 4 px.
    fn default() -> (r: Self)
        ensures
            is_default_shadow(r),
    {
        TextShadow {
            color: String::from_str("#000000"),
            offset_x_bits: SHADOW_OFFSET_BITS,
            offset_y_bits: SHADOW_OFFSET_BITS,
            blur_bits: SHADOW_BLUR_BITS,
        }
    }
}

/// A text overlay placed on the timeline.
#[derive(Debug, Clone)]
pub struct TextOverlay {
    /// A random version 4 UUID, hyphenated and lowercase.
    pub id: String,
    pub content: String,
    pub font_family: String,
    /// The bits of an `f32` size in points.
    pub font_size_bits: u32,
    pub color: TextColor,
    pub background: Option<TextBackground>,
    pub position: TextPosition,
    pub anchor: TextAnchor,
    pub animation: TextAnimation,
    pub outline: Option<TextOutline>,
    pub shadow: Option<TextShadow>,
}

/// The bits of `48.0_f32`: the size of plain text.
pub const PLAIN_SIZE_BITS: u32 = 0x4240_0000;

/// The bits of `36.0_f32`: the size of subtitles.
pub const SUBTITLE_SIZE_BITS: u32 = 0x4210_0000;

/// The bits of `72.0_f32`: the size of titles.
pub const TITLE_SIZE_BITS: u32 = 0x4290_0000;

/// The bits of `0.7_f32`: the opacity of a subtitle box.
pub const SUBTITLE_BOX_OPACITY_BITS: u32 = 0x3F33_3333;

/// The bits of `8.0_f32`: the padding of a subtitle box.
pub const SUBTITLE_BOX_PADDING_BITS: u32 = 0x4100_0000;

/// The bits of `3.0_f32`: the width of a title outline.
pub const TITLE_OUTLINE_BITS: u32 = 0x4040_0000;

/// What all three kinds of overlay share: the content in white sans-serif,
/// anchored at its centre.
pub open spec fn is_white_sans(t: TextOverlay, content: Seq<char>) -> bool {
    &&& is_uuid_v4_text(t.id@)
    &&& t.content@ == content
    &&& t.font_family@ == "sans-serif"@
    &&& t.color.hex@ == "#FFFFFF"@
    &&& t.color.opacity_bits == OPAQUE_BITS
    &&& t.anchor == TextAnchor::Center
}

impl TextOverlay {
    /// 48 pt text centred near the bottom, with the default shadow.
    pub fn simple(content: &str) -> (r: Self)
        ensures
            is_white_sans(r, content@),
            r.font_size_bits == PLAIN_SIZE_BITS,
            r.background is None,
            r.position == (TextPosition { x_bits: HALF_BITS, y_bits: LOW_Y_BITS }),
            r.animation == TextAnimation::NoAnimation,
            r.outline is None,
            r.shadow matches Some(s) && is_default_shadow(s),
    {
        TextOverlay {
            id: new_uuid_v4_text(),
            content: String::from_str(content),
            font_family: String::from_str("sans-serif"),
            font_size_bits: PLAIN_SIZE_BITS,
            color: TextColor::white(),
            background: None,
            position: TextPosition::bottom_center(),
            anchor: TextAnchor::Center,
            animation: TextAnimation::NoAnimation,
            outline: None,
            shadow: Some(TextShadow::default()),
        }
    }

    /// A 36 pt subtitle near the bottom on a black box (opacity 0.7,
    /// padding 8, corners 4), with no shadow.
    pub fn subtitle(content: &str) -> (r: Self)
        ensures
            is_white_sans(r, content@),
            r.font_size_bits == SUBTITLE_SIZE_BITS,
            r.background matches Some(b) && b.color@ == "#000000"@ && b.opacity_bits == SUBTITLE_BOX_OPACITY_BITS
                && b.padding_bits == SUBTITLE_BOX_PADDING_BITS && b.corner_radius_bits == SHADOW_BLUR_BITS,
            r.position == (TextPosition { x_bits: HALF_BITS, y_bits: LOW_Y_BITS }),
            r.animation == TextAnimation::NoAnimation,
            r.outline is None,
            r.shadow is None,
    {
        TextOverlay {
            id: new_uuid_v4_text(),
            content: String::from_str(content),
            font_family: String::from_str("sans-serif"),
            font_size_bits: SUBTITLE_SIZE_BITS,
            color: TextColor::white(),
            background: Some(TextBackground {
                color: String::from_str("#000000"),
                opacity_bits: SUBTITLE_BOX_OPACITY_BITS,
                padding_bits: SUBTITLE_BOX_PADDING_BITS,
                corner_radius_bits: SHADOW_BLUR_BITS,
            }),
            position: TextPosition::bottom_center(),
            anchor: TextAnchor::Center,
            animation: TextAnimation::NoAnimation,
            outline: None,
            shadow: None,
        }
    }

    /// A 72 pt title at height 0.3 that fades in over 500 ms, with a 3 px
    /// black outline and the default shadow.
    pub fn title(content: &str) -> (r: Self)
        ensures
            is_white_sans(r, content@),
            r.font_size_bits == TITLE_SIZE_BITS,
            r.background is None,
            r.position == (TextPosition { x_bits: HALF_BITS, y_bits: TITLE_Y_BITS }),
            r.animation == (TextAnimation::FadeIn { duration_ms: 500 }),
            r.outline matches Some(o) && o.color@ == "#000000"@ && o.width_bits == TITLE_OUTLINE_BITS,
            r.shadow matches Some(s) && is_default_shadow(s),
    {
        TextOverlay {
            id: new_uuid_v4_text(),
            content: String::from_str(content),
            font_family: String::from_str("sans-serif"),
            font_size_bits: TITLE_SIZE_BITS,
            color: TextColor::white(),
            background: None,
            position: TextPosition { x_bits: HALF_BITS, y_bits: TITLE_Y_BITS },
            anchor: TextAnchor::Center,
            animation: TextAnimation::FadeIn { duration_ms: 500 },
            outline: Some(TextOutline { color: String::from_str("#000000"), width_bits: TITLE_OUTLINE_BITS }),
            shadow: Some(TextShadow::default()),
        }
    }
}

} // verus!
