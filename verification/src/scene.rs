//! Scene model: passive data describing one renderable screen.
//!
//! A `Configuration` carries an ordered list of screens and a map of named
//! text styles; each `Screen` holds drawable `Element`s.  Elements are a
//! closed tagged union, drawn in array order (later elements draw over
//! earlier ones).

use vstd::prelude::*;
use vstd::string::StringExecFns;
use crate::directory::Directory;

verus! {

/// A position on the panel, in pixels.
#[derive(Debug, Clone, Copy, PartialEq, Eq, Structural)]
pub struct Point {
    /// X position of the point
    pub x: i32,
    /// Y position of the point
    pub y: i32,
}

impl Point {
    pub fn new(x: i32, y: i32) -> (p: Self)
        ensures
            p == (Point { x, y }),
    {
        Self { x, y }
    }
}

/// A width and height, in pixels.
#[derive(Debug, Clone, Copy, PartialEq, Eq, Structural)]
pub struct Size {
    pub width: u32,
    pub height: u32,
}

impl Size {
    pub fn new(w: u32, h: u32) -> (s: Self)
        ensures
            s == (Size { width: w, height: h }),
    {
        Self { width: w, height: h }
    }

    pub fn zero() -> (s: Self)
        ensures
            s == (Size { width: 0, height: 0 }),
    {
        Self { width: 0, height: 0 }
    }
}

/// How text is aligned around its anchor point.
#[derive(Debug, Clone, Copy, PartialEq, Eq, Structural)]
pub enum Alignment {
    Left,
    Center,
    Right,
}

/// Corner radii of a rounded rectangle: either one radius for all four
/// corners, or a radius per corner (unset corners stay square).
#[derive(Debug, Clone)]
pub enum RectangleCorners {
    Uniform(Size),
    Different {
        top_left: Option<Size>,
        top_right: Option<Size>,
        bottom_left: Option<Size>,
        bottom_right: Option<Size>,
    },
}

impl RectangleCorners {
    pub fn new() -> (c: Self)
        ensures
            c == (RectangleCorners::Different {
                top_left: None::<Size>,
                top_right: None::<Size>,
                bottom_left: None::<Size>,
                bottom_right: None::<Size>,
            }),
    {
        Self::Different { top_left: None, top_right: None, bottom_left: None, bottom_right: None }
    }

    pub fn uniform(size: Size) -> (c: Self)
        ensures
            c == (RectangleCorners::Different {
                top_left: Some(size),
                top_right: Some(size),
                bottom_left: Some(size),
                bottom_right: Some(size),
            }),
    {
        Self::Different {
            top_left: Some(size),
            top_right: Some(size),
            bottom_left: Some(size),
            bottom_right: Some(size),
        }
    }

    /// The same corners with the uniform form spelled out per corner.
    pub open spec fn spec_expand(self) -> RectangleCorners {
        match self {
            RectangleCorners::Uniform(s) => RectangleCorners::Different {
                top_left: Some(s),
                top_right: Some(s),
                bottom_left: Some(s),
                bottom_right: Some(s),
            },
            _ => self,
        }
    }

    fn expand(self) -> (c: Self)
        ensures
            c == self.spec_expand(),
    {
        if let RectangleCorners::Uniform(s) = self {
            Self::Different {
                top_left: Some(s),
                top_right: Some(s),
                bottom_left: Some(s),
                bottom_right: Some(s),
            }
        } else {
            self
        }
    }

    pub fn top_right(self, size: Size) -> (c: Self)
        ensures
            (c matches RectangleCorners::Different { top_left, top_right, bottom_left, bottom_right }
                && top_right == Some(size)
                && (self.spec_expand() matches RectangleCorners::Different {
                    top_left: e_tl, bottom_left: e_bl, bottom_right: e_br, ..
                } && top_left == e_tl && bottom_left == e_bl && bottom_right == e_br)),
    {
        let expanded = self.expand();
        if let RectangleCorners::Different { top_left, bottom_left, bottom_right, .. } = expanded {
            Self::Different { top_left, top_right: Some(size), bottom_left, bottom_right }
        } else {
            expanded
        }
    }

    pub fn top_left(self, size: Size) -> (c: Self)
        ensures
            (c matches RectangleCorners::Different { top_left, top_right, bottom_left, bottom_right }
                && top_left == Some(size)
                && (self.spec_expand() matches RectangleCorners::Different {
                    top_right: e_tr, bottom_left: e_bl, bottom_right: e_br, ..
                } && top_right == e_tr && bottom_left == e_bl && bottom_right == e_br)),
    {
        let expanded = self.expand();
        if let RectangleCorners::Different { top_right, bottom_left, bottom_right, .. } = expanded {
            Self::Different { top_left: Some(size), top_right, bottom_left, bottom_right }
        } else {
            expanded
        }
    }

    pub fn bottom_left(self, size: Size) -> (c: Self)
        ensures
            (c matches RectangleCorners::Different { top_left, top_right, bottom_left, bottom_right }
                && bottom_left == Some(size)
                && (self.spec_expand() matches RectangleCorners::Different {
                    top_left: e_tl, top_right: e_tr, bottom_right: e_br, ..
                } && top_left == e_tl && top_right == e_tr && bottom_right == e_br)),
    {
        let expanded = self.expand();
        if let RectangleCorners::Different { top_left, top_right, bottom_right, .. } = expanded {
            Self::Different { top_left, top_right, bottom_left: Some(size), bottom_right }
        } else {
            expanded
        }
    }

    pub fn bottom_right(self, size: Size) -> (c: Self)
        ensures
            (c matches RectangleCorners::Different { top_left, top_right, bottom_left, bottom_right }
                && bottom_right == Some(size)
                && (self.spec_expand() matches RectangleCorners::Different {
                    top_left: e_tl, top_right: e_tr, bottom_left: e_bl, ..
                } && top_left == e_tl && top_right == e_tr && bottom_left == e_bl)),
    {
        let expanded = self.expand();
        if let RectangleCorners::Different { top_left, top_right, bottom_left, .. } = expanded {
            Self::Different { top_left, top_right, bottom_left, bottom_right: Some(size) }
        } else {
            expanded
        }
    }
}

/// One drawable primitive.
#[derive(Debug, Clone)]
pub enum Element {
    /// Display a text element at the given position
    Text {
        /// One of the styles from the text_styles map
        style: String,
        /// The text that should be displayed
        text: String,
        /// Position of the text
        position: Point,
        /// How to align the text
        align: Option<Alignment>,
    },
    /// Display a sprite at the given position
    Sprite {
        /// Position of the sprite
        position: Point,
        /// Name of the sprite, a key in the persistent store
        name: String,
        /// Center the sprite around a given point
        center: Option<Point>,
    },
    /// Draw a line
    Line {
        /// Start of the line
        start: Point,
        /// End of the line
        end: Point,
        /// Color of the line
        color: Option<String>,
        /// Width of the line
        stroke: Option<u32>,
    },
    Polyline {
        /// Points of the polyline
        points: Vec<Point>,
        /// Color of the line
        color: Option<String>,
        /// Width of the line
        stroke: Option<u32>,
    },
    Rectangle {
        /// Top left position of the rectangle
        top_left: Point,
        /// Width and height of the rectangle
        size: Size,
        /// Fill color
        fill_color: Option<String>,
        /// Color of the rectangle stroke
        stroke_color: Option<String>,
        /// Stroke width of the rectangle stroke
        stroke: Option<u32>,
        /// Corner radii of a rounded rectangle
        rounded_corners: Option<RectangleCorners>,
    },
}

impl Element {
    pub fn new_text(style: &str, text: String, position: Point) -> (e: Self)
        ensures
            (e matches Element::Text { style: s, text: t, position: p, align }
                && s@ == style@ && t == text && p == position && align is None),
    {
        Self::Text { style: String::from_str(style), text, position, align: None }
    }

    pub fn new_sprite(name: String, position: Point) -> (e: Self)
        ensures
            (e matches Element::Sprite { name: n, position: p, center }
                && n == name && p == position && center is None),
    {
        Self::Sprite { name, position, center: None }
    }

    pub fn new_line(start: Point, end: Point, color: &str) -> (e: Self)
        ensures
            (e matches Element::Line { start: s, end: en, color: c, stroke }
                && s == start && en == end
                && (c matches Some(cs) && cs@ == color@)
                && stroke == Some(1u32)),
    {
        Self::Line { start, end, color: Some(String::from_str(color)), stroke: Some(1) }
    }

    pub fn new_polyline(points: Vec<Point>, color: &str) -> (e: Self)
        ensures
            (e matches Element::Polyline { points: p, color: c, stroke }
                && p == points
                && (c matches Some(cs) && cs@ == color@)
                && stroke == Some(1u32)),
    {
        Self::Polyline { points, color: Some(String::from_str(color)), stroke: Some(1) }
    }

    pub fn new_rect(left_top: Point, size: Size) -> (e: Self)
        ensures
            (e matches Element::Rectangle {
                top_left, size: s, fill_color, stroke_color, stroke, rounded_corners
            }
                && top_left == left_top && s == size
                && fill_color is None && stroke_color is None
                && stroke is None && rounded_corners is None),
    {
        Self::Rectangle {
            top_left: left_top,
            size,
            fill_color: None,
            stroke_color: None,
            stroke: None,
            rounded_corners: None,
        }
    }

    /// Only applicable to lines, polylines and rectangles
    pub fn with_stroke(self, stroke_width: u32) -> (e: Self)
        ensures
            e == self.spec_with_stroke(stroke_width),
    {
        match self {
            Element::Line { start, end, color, .. } => Element::Line {
                start,
                end,
                color,
                stroke: Some(stroke_width),
            },
            Element::Polyline { points, color, .. } => Element::Polyline {
                points,
                color,
                stroke: Some(stroke_width),
            },
            Element::Rectangle {
                top_left,
                size,
                fill_color,
                stroke_color,
                rounded_corners,
                ..
            } => Element::Rectangle {
                top_left,
                size,
                fill_color,
                stroke_color,
                stroke: Some(stroke_width),
                rounded_corners,
            },
            other => other,
        }
    }

    pub open spec fn spec_with_stroke(self, stroke_width: u32) -> Element {
        match self {
            Element::Line { start, end, color, .. } => Element::Line {
                start,
                end,
                color,
                stroke: Some(stroke_width),
            },
            Element::Polyline { points, color, .. } => Element::Polyline {
                points,
                color,
                stroke: Some(stroke_width),
            },
            Element::Rectangle {
                top_left,
                size,
                fill_color,
                stroke_color,
                rounded_corners,
                ..
            } => Element::Rectangle {
                top_left,
                size,
                fill_color,
                stroke_color,
                stroke: Some(stroke_width),
                rounded_corners,
            },
            _ => self,
        }
    }

    /// Only applicable to lines, polylines and rectangles
    pub fn stroke_color(self, stroke_color: &str) -> (e: Self)
        ensures
            (self matches Element::Line { start, end, stroke, .. } ==> (
                e matches Element::Line { start: s2, end: e2, color: c2, stroke: w2 }
                    && s2 == start && e2 == end && w2 == stroke
                    && (c2 matches Some(cs) && cs@ == stroke_color@))),
            (self matches Element::Polyline { points, stroke, .. } ==> (
                e matches Element::Polyline { points: p2, color: c2, stroke: w2 }
                    && p2 == points && w2 == stroke
                    && (c2 matches Some(cs) && cs@ == stroke_color@))),
            (self matches Element::Rectangle {
                top_left, size, fill_color, stroke, rounded_corners, ..
            } ==> (
                e matches Element::Rectangle {
                    top_left: t2, size: s2, fill_color: f2,
                    stroke_color: c2, stroke: w2, rounded_corners: r2
                }
                    && t2 == top_left && s2 == size && f2 == fill_color
                    && w2 == stroke && r2 == rounded_corners
                    && (c2 matches Some(cs) && cs@ == stroke_color@))),
            (self matches Element::Text { .. } ==> e == self),
            (self matches Element::Sprite { .. } ==> e == self),
    {
        match self {
            Element::Line { start, end, stroke, .. } => Element::Line {
                start,
                end,
                color: Some(String::from_str(stroke_color)),
                stroke,
            },
            Element::Polyline { points, stroke, .. } => Element::Polyline {
                points,
                color: Some(String::from_str(stroke_color)),
                stroke,
            },
            Element::Rectangle {
                top_left,
                size,
                fill_color,
                stroke,
                rounded_corners,
                ..
            } => Element::Rectangle {
                top_left,
                size,
                fill_color,
                stroke_color: Some(String::from_str(stroke_color)),
                stroke,
                rounded_corners,
            },
            other => other,
        }
    }

    /// Only applicable to rectangles
    pub fn fill_color(self, fill_color: &str) -> (e: Self)
        ensures
            (self matches Element::Rectangle {
                top_left, size, stroke_color, stroke, rounded_corners, ..
            } ==> (
                e matches Element::Rectangle {
                    top_left: t2, size: s2, fill_color: f2,
                    stroke_color: c2, stroke: w2, rounded_corners: r2
                }
                    && t2 == top_left && s2 == size && c2 == stroke_color
                    && w2 == stroke && r2 == rounded_corners
                    && (f2 matches Some(fs) && fs@ == fill_color@))),
            (!(self matches Element::Rectangle { .. }) ==> e == self),
    {
        match self {
            Element::Rectangle {
                top_left,
                size,
                stroke_color,
                stroke,
                rounded_corners,
                ..
            } => Element::Rectangle {
                top_left,
                size,
                fill_color: Some(String::from_str(fill_color)),
                stroke_color,
                stroke,
                rounded_corners,
            },
            other => other,
        }
    }

    /// Only applicable to rectangles.
    /// Adds the same corner radius to all corners of a rectangle.
    pub fn with_rounded_corners(self, corners: Size) -> (e: Self)
        ensures
            (self matches Element::Rectangle {
                top_left, size, fill_color, stroke_color, stroke, ..
            } ==> e == (Element::Rectangle {
                top_left, size, fill_color, stroke_color, stroke,
                rounded_corners: Some(RectangleCorners::Uniform(corners)),
            })),
            (!(self matches Element::Rectangle { .. }) ==> e == self),
    {
        match self {
            Element::Rectangle {
                top_left,
                size,
                fill_color,
                stroke_color,
                stroke,
                ..
            } => Element::Rectangle {
                top_left,
                size,
                fill_color,
                stroke_color,
                stroke,
                rounded_corners: Some(RectangleCorners::Uniform(corners)),
            },
            other => other,
        }
    }

    /// Only applicable to rectangles.
    /// Adds corner configuration to a rectangle.
    pub fn with_corners(self, corners: RectangleCorners) -> (e: Self)
        ensures
            (self matches Element::Rectangle {
                top_left, size, fill_color, stroke_color, stroke, ..
            } ==> e == (Element::Rectangle {
                top_left, size, fill_color, stroke_color, stroke,
                rounded_corners: Some(corners),
            })),
            (!(self matches Element::Rectangle { .. }) ==> e == self),
    {
        match self {
            Element::Rectangle {
                top_left,
                size,
                fill_color,
                stroke_color,
                stroke,
                ..
            } => Element::Rectangle {
                top_left,
                size,
                fill_color,
                stroke_color,
                stroke,
                rounded_corners: Some(corners),
            },
            other => other,
        }
    }

    /// Only applicable to sprites
    pub fn centered(self, centerpoint: Point) -> (e: Self)
        ensures
            (self matches Element::Sprite { position, name, .. } ==> e == (Element::Sprite {
                position, name, center: Some(centerpoint),
            })),
            (!(self matches Element::Sprite { .. }) ==> e == self),
    {
        match self {
            Element::Sprite { position, name, .. } => Element::Sprite {
                position,
                name,
                center: Some(centerpoint),
            },
            other => other,
        }
    }

    /// Only applicable to text
    pub fn with_alignment(self, alignment: Alignment) -> (e: Self)
        ensures
            (self matches Element::Text { style, text, position, .. } ==> e == (Element::Text {
                style, text, position, align: Some(alignment),
            })),
            (!(self matches Element::Text { .. }) ==> e == self),
    {
        match self {
            Element::Text { style, text, position, .. } => Element::Text {
                style,
                text,
                position,
                align: Some(alignment),
            },
            other => other,
        }
    }

    /// The anchor position of an element: where drawing starts.  A polyline
    /// is anchored at its first point, or the origin when it has none.
    pub open spec fn spec_position(&self) -> Point {
        match self {
            Element::Text { position, .. } => *position,
            Element::Sprite { position, .. } => *position,
            Element::Line { start, .. } => *start,
            Element::Polyline { points, .. } => if points@.len() > 0 {
                points@[0]
            } else {
                Point { x: 0, y: 0 }
            },
            Element::Rectangle { top_left, .. } => *top_left,
        }
    }

    pub fn position(&self) -> (p: Point)
        ensures
            p == self.spec_position(),
    {
        match self {
            Element::Text { position, .. } => *position,
            Element::Sprite { position, .. } => *position,
            Element::Line { start, .. } => *start,
            Element::Polyline { points, .. } => {
                if points.len() > 0 {
                    points[0]
                } else {
                    Point { x: 0, y: 0 }
                }
            },
            Element::Rectangle { top_left, .. } => *top_left,
        }
    }
}

/// One of the fonts compiled into the device.
#[derive(Debug, Clone, Copy, PartialEq, Eq, Structural)]
pub enum FontName {
    Font4X6,
    Font5X7,
    Font5X8,
    Font6X9,
    Font6X10,
    Font6X12,
    Font6X13,
    Font6X13Bold,
    Font6X13Italic,
    Font7X13,
    Font7X13Bold,
    Font7X13Italic,
    Font7X14,
    Font7X14Bold,
    Font8X13,
    Font8X13Bold,
    Font8X13Italic,
    Font9X15,
    Font9X15Bold,
    Font9X18,
    Font9X18Bold,
    Font10X20,
    Profont7,
    Profont9,
    Profont10,
    Profont12,
    Profont14,
    Profont18,
    Profont24,
}

/// Text rendering attributes, with colors still in string form.
#[derive(Debug, Clone)]
pub struct TextStyle {
    /// Foreground color of the text
    pub text_color: String,
    /// Font to use for the text
    pub font: FontName,
    /// Background color of the font
    pub background_color: Option<String>,
    /// Whether to underline the text or not
    pub underline: Option<bool>,
    /// Whether to strikethrough the text or not
    pub strikethrough: Option<bool>,
}

impl TextStyle {
    pub fn new(text_color: &str, font: FontName) -> (s: Self)
        ensures
            s.text_color@ == text_color@,
            s.font == font,
            s.background_color is None,
            s.underline is None,
            s.strikethrough is None,
    {
        Self {
            text_color: String::from_str(text_color),
            font,
            background_color: None,
            strikethrough: None,
            underline: None,
        }
    }

    pub fn with_background(self, background_color: String) -> (s: Self)
        ensures
            s == (TextStyle { background_color: Some(background_color), ..self }),
    {
        Self { background_color: Some(background_color), ..self }
    }

    pub fn with_underline(self, underline: bool) -> (s: Self)
        ensures
            s == (TextStyle { underline: Some(underline), ..self }),
    {
        Self { underline: Some(underline), ..self }
    }
}

/// The map from style names to text styles carried with a configuration.
pub type GlobalStylesType = Directory<TextStyle>;

/// One screen: an ordered array of elements to display.
#[derive(Debug, Clone)]
pub struct Screen {
    /// Array of elements to display on the screen
    pub elements: Vec<Element>,
}

impl Screen {
    pub fn new(elements: Vec<Element>) -> (s: Self)
        ensures
            s.elements == elements,
    {
        Self { elements }
    }
}

/// A display configuration as pushed over the network: a list of screens
/// and the text styles they refer to.
#[derive(Debug, Clone)]
pub struct Configuration {
    /// Array of screens to display.  Only a single screen is supported.
    pub screens: Vec<Screen>,
    /// Map of text styles
    pub text_styles: GlobalStylesType,
}

impl Configuration {
    pub fn new(screens: Vec<Screen>) -> (c: Self)
        ensures
            c.screens == screens,
            c.text_styles@ == Map::<Seq<char>, TextStyle>::empty(),
            c.text_styles.wf(),
    {
        Self { screens, text_styles: GlobalStylesType::new() }
    }

    pub fn add_style(self, name: &str, style: TextStyle) -> (c: Self)
        requires
            self.text_styles.wf(),
        ensures
            c.screens == self.screens,
            c.text_styles@ == self.text_styles@.insert(name@, style),
            c.text_styles.wf(),
    {
        let mut styles = self.text_styles;
        styles.insert(String::from_str(name), style);
        Self { screens: self.screens, text_styles: styles }
    }
}

/// A stored animated image: an ordered sequence of encoded frame blobs and
/// the uniform duration each frame is held for, in milliseconds.
#[derive(Debug, Clone)]
pub struct Resource {
    pub frames: Vec<Vec<u8>>,
    pub frame_time_ms: u16,
}

impl Resource {
    pub fn new(frames: Vec<Vec<u8>>, frame_time_ms: u16) -> (r: Self)
        ensures
            r.frames == frames,
            r.frame_time_ms == frame_time_ms,
    {
        Self { frames, frame_time_ms }
    }
}

} // verus!
