//! The scene model's constructors and builders.

use headless_display::scene::{
    Alignment, Configuration, Element, FontName, Point, RectangleCorners, Resource, Screen, Size,
    TextStyle,
};

#[test]
fn point_and_size_builders() {
    let p = Point::new(3, -4);
    assert_eq!(p.x, 3);
    assert_eq!(p.y, -4);
    let s = Size::new(7, 9);
    assert_eq!(s.width, 7);
    assert_eq!(s.height, 9);
    let z = Size::zero();
    assert_eq!(z.width, 0);
    assert_eq!(z.height, 0);
}

#[test]
fn text_element_builder() {
    let e = Element::new_text("clock", "12:30".to_string(), Point::new(2, 13));
    match e {
        Element::Text { style, text, position, align } => {
            assert_eq!(style, "clock");
            assert_eq!(text, "12:30");
            assert_eq!(position, Point::new(2, 13));
            assert!(align.is_none());
        }
        _ => panic!("expected a text element"),
    }
}

#[test]
fn text_alignment_builder() {
    let e = Element::new_text("a", "x".to_string(), Point::new(0, 0))
        .with_alignment(Alignment::Right);
    match e {
        Element::Text { align, .. } => assert_eq!(align, Some(Alignment::Right)),
        _ => panic!("expected a text element"),
    }
}

#[test]
fn sprite_element_builder() {
    let e = Element::new_sprite("logo".to_string(), Point::new(5, 6)).centered(Point::new(8, 9));
    match e {
        Element::Sprite { name, position, center } => {
            assert_eq!(name, "logo");
            assert_eq!(position, Point::new(5, 6));
            assert_eq!(center, Some(Point::new(8, 9)));
        }
        _ => panic!("expected a sprite element"),
    }
}

#[test]
fn line_element_builder() {
    let e = Element::new_line(Point::new(0, 19), Point::new(192, 19), "FFFFFF").with_stroke(3);
    match e {
        Element::Line { start, end, color, stroke } => {
            assert_eq!(start, Point::new(0, 19));
            assert_eq!(end, Point::new(192, 19));
            assert_eq!(color.as_deref(), Some("FFFFFF"));
            assert_eq!(stroke, Some(3));
        }
        _ => panic!("expected a line element"),
    }
}

#[test]
fn polyline_element_builder() {
    let pts = vec![Point::new(0, 0), Point::new(1, 2)];
    let e = Element::new_polyline(pts, "404040");
    match e {
        Element::Polyline { points, color, stroke } => {
            assert_eq!(points.len(), 2);
            assert_eq!(points[1], Point::new(1, 2));
            assert_eq!(color.as_deref(), Some("404040"));
            assert_eq!(stroke, Some(1));
        }
        _ => panic!("expected a polyline element"),
    }
}

#[test]
fn rectangle_element_builder() {
    let e = Element::new_rect(Point::new(1, 1), Size::new(10, 5))
        .fill_color("00FF00")
        .stroke_color("FF0000")
        .with_stroke(2)
        .with_rounded_corners(Size::new(2, 2));
    match e {
        Element::Rectangle { top_left, size, fill_color, stroke_color, stroke, rounded_corners } => {
            assert_eq!(top_left, Point::new(1, 1));
            assert_eq!(size, Size::new(10, 5));
            assert_eq!(fill_color.as_deref(), Some("00FF00"));
            assert_eq!(stroke_color.as_deref(), Some("FF0000"));
            assert_eq!(stroke, Some(2));
            match rounded_corners {
                Some(RectangleCorners::Uniform(s)) => assert_eq!(s, Size::new(2, 2)),
                _ => panic!("expected uniform corners"),
            }
        }
        _ => panic!("expected a rectangle element"),
    }
}

#[test]
fn builders_ignore_wrong_variants() {
    let e = Element::new_text("a", "x".to_string(), Point::new(0, 0))
        .with_stroke(4)
        .fill_color("112233")
        .centered(Point::new(1, 1));
    match e {
        Element::Text { style, text, .. } => {
            assert_eq!(style, "a");
            assert_eq!(text, "x");
        }
        _ => panic!("a text element must stay a text element"),
    }
}

#[test]
fn corner_builders_expand_uniform() {
    let c = RectangleCorners::uniform(Size::new(3, 3)).top_right(Size::new(1, 1));
    match c {
        RectangleCorners::Different { top_left, top_right, bottom_left, bottom_right } => {
            assert_eq!(top_left, Some(Size::new(3, 3)));
            assert_eq!(top_right, Some(Size::new(1, 1)));
            assert_eq!(bottom_left, Some(Size::new(3, 3)));
            assert_eq!(bottom_right, Some(Size::new(3, 3)));
        }
        _ => panic!("expected per-corner radii"),
    }
}

#[test]
fn corner_builders_from_empty() {
    let c = RectangleCorners::new()
        .top_left(Size::new(1, 1))
        .bottom_right(Size::new(2, 2));
    match c {
        RectangleCorners::Different { top_left, top_right, bottom_left, bottom_right } => {
            assert_eq!(top_left, Some(Size::new(1, 1)));
            assert_eq!(top_right, None);
            assert_eq!(bottom_left, None);
            assert_eq!(bottom_right, Some(Size::new(2, 2)));
        }
        _ => panic!("expected per-corner radii"),
    }
}

#[test]
fn element_position_by_variant() {
    assert_eq!(
        Element::new_sprite("s".to_string(), Point::new(4, 5)).position(),
        Point::new(4, 5)
    );
    assert_eq!(
        Element::new_line(Point::new(1, 2), Point::new(3, 4), "FFFFFF").position(),
        Point::new(1, 2)
    );
    assert_eq!(
        Element::new_polyline(vec![], "FFFFFF").position(),
        Point::new(0, 0)
    );
    assert_eq!(
        Element::new_polyline(vec![Point::new(9, 9)], "FFFFFF").position(),
        Point::new(9, 9)
    );
}

#[test]
fn text_style_builders() {
    let st = TextStyle::new("FFFFFF", FontName::Font5X7)
        .with_background("000000".to_string())
        .with_underline(true);
    assert_eq!(st.text_color, "FFFFFF");
    assert_eq!(st.font, FontName::Font5X7);
    assert_eq!(st.background_color.as_deref(), Some("000000"));
    assert_eq!(st.underline, Some(true));
    assert!(st.strikethrough.is_none());
}

#[test]
fn configuration_styles_are_a_map() {
    let c = Configuration::new(vec![Screen::new(vec![])])
        .add_style("a", TextStyle::new("FFFFFF", FontName::Font5X7))
        .add_style("b", TextStyle::new("000000", FontName::Font10X20))
        .add_style("a", TextStyle::new("123456", FontName::Font5X8));
    let a = c.text_styles.get(&"a".to_string()).expect("style a");
    assert_eq!(a.text_color, "123456");
    assert_eq!(a.font, FontName::Font5X8);
    let b = c.text_styles.get(&"b".to_string()).expect("style b");
    assert_eq!(b.text_color, "000000");
    assert!(c.text_styles.get(&"c".to_string()).is_none());
}

#[test]
fn resource_builder() {
    let r = Resource::new(vec![vec![1, 2], vec![3]], 500);
    assert_eq!(r.frames.len(), 2);
    assert_eq!(r.frames[0], vec![1, 2]);
    assert_eq!(r.frame_time_ms, 500);
}
