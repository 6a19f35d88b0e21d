//! The compositor: scene, cache and connectivity state turned into draw
//! commands.
//!
//! Elements are drawn in array order, later elements over earlier ones.
//! A missing text style skips the element; a missing or undecodable
//! sprite falls back to the built-in placeholder; a malformed color
//! string leaves that field at its default.  A command list stands for a
//! full repaint: the consumer clears the buffer, then draws the commands
//! in order.

use vstd::prelude::*;
use vstd::string::StringExecFns;
use crate::cache::{spec_prepared, SpriteRegister};
use crate::color::{spec_color, string_to_color, Rgb};
use crate::directory::name_set;
use crate::image::{qoi_ok, qoi_valid};
use crate::scene::{Alignment, Element, Point, RectangleCorners, Screen, Size};
use crate::sprite::{get_dino_sprite, get_no_image_sprite, get_wifi_sprite, BakedResource};
use crate::store::PersistentStore;
use crate::style::{BuiltTextStyle, CheckedScreenConfig};

verus! {

/// Stroke and fill attributes of a primitive, with colors parsed; a
/// malformed color string leaves its field unset.
#[derive(Debug, Clone, Copy, PartialEq, Eq, Structural)]
pub struct PrimitiveStyle {
    pub stroke_color: Option<Rgb>,
    pub stroke_width: Option<u32>,
    pub fill_color: Option<Rgb>,
}

/// The radii of a rectangle's four corners; zero means square.
#[derive(Debug, Clone, Copy, PartialEq, Eq, Structural)]
pub struct CornerRadii {
    pub top_left: Size,
    pub top_right: Size,
    pub bottom_left: Size,
    pub bottom_right: Size,
}

/// One drawing instruction for the panel.
#[derive(Debug)]
pub enum DrawCommand {
    /// Draw an encoded image at a position, or centered on a point
    Image { data: Vec<u8>, position: Point, center: Option<Point> },
    /// Draw text in a built style
    Text { content: String, position: Point, style: BuiltTextStyle, align: Option<Alignment> },
    /// Draw a line
    Line { start: Point, end: Point, style: PrimitiveStyle },
    /// Draw a polyline through the given points
    Polyline { points: Vec<Point>, style: PrimitiveStyle },
    /// Draw a rectangle, corners rounded per `corners`
    Rect { top_left: Point, size: Size, style: PrimitiveStyle, corners: CornerRadii },
    /// Draw a status placeholder: an animation frame over a message,
    /// centered on the display
    Status { message: String, image: Vec<u8> },
}

/// What a primitive style is built from its element's optional fields.
pub open spec fn spec_primitive_style(
    stroke_color: Option<String>,
    stroke_width: Option<u32>,
    fill_color: Option<String>,
) -> PrimitiveStyle {
    PrimitiveStyle {
        stroke_color: match stroke_color {
            Some(c) => spec_color(c@),
            None => None,
        },
        stroke_width,
        fill_color: match fill_color {
            Some(c) => spec_color(c@),
            None => None,
        },
    }
}

/// Builds a primitive style: colors that fail to parse stay unset.
pub fn make_primitive_style(
    stroke_color: &Option<String>,
    stroke_width: &Option<u32>,
    fill_color: &Option<String>,
) -> (s: PrimitiveStyle)
    ensures
        s == spec_primitive_style(*stroke_color, *stroke_width, *fill_color),
{
    let sc = match stroke_color {
        Some(c) => string_to_color(c),
        None => None,
    };
    let fc = match fill_color {
        Some(c) => string_to_color(c),
        None => None,
    };
    PrimitiveStyle { stroke_color: sc, stroke_width: *stroke_width, fill_color: fc }
}

/// What corner radii a rectangle's corner spec denotes: absent corners
/// are square.
pub open spec fn spec_corner_radii(rc: Option<RectangleCorners>) -> CornerRadii {
    match rc {
        None => CornerRadii {
            top_left: Size { width: 0, height: 0 },
            top_right: Size { width: 0, height: 0 },
            bottom_left: Size { width: 0, height: 0 },
            bottom_right: Size { width: 0, height: 0 },
        },
        Some(RectangleCorners::Uniform(s)) => CornerRadii {
            top_left: s,
            top_right: s,
            bottom_left: s,
            bottom_right: s,
        },
        Some(RectangleCorners::Different { top_left, top_right, bottom_left, bottom_right }) => CornerRadii {
            top_left: spec_size_or_zero(top_left),
            top_right: spec_size_or_zero(top_right),
            bottom_left: spec_size_or_zero(bottom_left),
            bottom_right: spec_size_or_zero(bottom_right),
        },
    }
}

pub open spec fn spec_size_or_zero(s: Option<Size>) -> Size {
    match s {
        Some(v) => v,
        None => Size { width: 0, height: 0 },
    }
}

fn size_or_zero(s: &Option<Size>) -> (r: Size)
    ensures
        r == spec_size_or_zero(*s),
{
    match s {
        Some(v) => *v,
        None => Size { width: 0, height: 0 },
    }
}

/// Builds the corner radii of a rectangle.
pub fn corner_radii(rc: &Option<RectangleCorners>) -> (r: CornerRadii)
    ensures
        r == spec_corner_radii(*rc),
{
    match rc {
        None => CornerRadii {
            top_left: Size { width: 0, height: 0 },
            top_right: Size { width: 0, height: 0 },
            bottom_left: Size { width: 0, height: 0 },
            bottom_right: Size { width: 0, height: 0 },
        },
        Some(RectangleCorners::Uniform(s)) => CornerRadii {
            top_left: *s,
            top_right: *s,
            bottom_left: *s,
            bottom_right: *s,
        },
        Some(RectangleCorners::Different { top_left, top_right, bottom_left, bottom_right }) => CornerRadii {
            top_left: size_or_zero(top_left),
            top_right: size_or_zero(top_right),
            bottom_left: size_or_zero(bottom_left),
            bottom_right: size_or_zero(bottom_right),
        },
    }
}

/// A resident sprite yields a drawable frame at `now`: it is cached, has
/// frames, and the frame under the (advanced) cursor decodes.
pub open spec fn spec_sprite_ok(
    name: Seq<char>,
    cache: Map<Seq<char>, BakedResource>,
    now: u64,
) -> bool {
    &&& cache.contains_key(name)
    &&& cache[name].spec_step(now).frames@.len() > 0
    &&& qoi_ok(cache[name].spec_step(now).spec_frame())
}

/// A cursor yields a drawable frame at `now` once stepped.
pub open spec fn spec_stepped_ok(b: BakedResource, now: u64) -> bool {
    &&& b.spec_step(now).frames@.len() > 0
    &&& qoi_ok(b.spec_step(now).spec_frame())
}

/// The cache after one element is rendered: a resident sprite's cursor
/// advances; everything else leaves the cache alone.
pub open spec fn spec_cache_after(
    e: Element,
    cache: Map<Seq<char>, BakedResource>,
    now: u64,
) -> Map<Seq<char>, BakedResource> {
    match e {
        Element::Sprite { name, .. } => if cache.contains_key(name@) {
            cache.insert(name@, cache[name@].spec_step(now))
        } else {
            cache
        },
        _ => cache,
    }
}

/// The placeholder cursor after one element: it advances exactly when a
/// sprite element had to fall back to it.
pub open spec fn spec_err_after(
    e: Element,
    cache: Map<Seq<char>, BakedResource>,
    err: BakedResource,
    now: u64,
) -> BakedResource {
    match e {
        Element::Sprite { name, .. } => if spec_sprite_ok(name@, cache, now) {
            err
        } else {
            err.spec_step(now)
        },
        _ => err,
    }
}

/// The cache after a whole element list is rendered, in order.
pub open spec fn spec_cache_after_all(
    elements: Seq<Element>,
    cache: Map<Seq<char>, BakedResource>,
    now: u64,
) -> Map<Seq<char>, BakedResource>
    decreases elements.len(),
{
    if elements.len() == 0 {
        cache
    } else {
        spec_cache_after(
            elements.last(),
            spec_cache_after_all(elements.drop_last(), cache, now),
            now,
        )
    }
}

/// The placeholder cursor after a whole element list is rendered.
pub open spec fn spec_err_after_all(
    elements: Seq<Element>,
    cache: Map<Seq<char>, BakedResource>,
    err: BakedResource,
    now: u64,
) -> BakedResource
    decreases elements.len(),
{
    if elements.len() == 0 {
        err
    } else {
        spec_err_after(
            elements.last(),
            spec_cache_after_all(elements.drop_last(), cache, now),
            spec_err_after_all(elements.drop_last(), cache, err, now),
            now,
        )
    }
}

/// Whether an element produces a command: text needs its style defined; a
/// sprite needs its own frame or the placeholder's to be drawable; lines,
/// polylines and rectangles always draw.
pub open spec fn spec_emits(
    e: Element,
    styles: Map<Seq<char>, BuiltTextStyle>,
    cache: Map<Seq<char>, BakedResource>,
    err: BakedResource,
    now: u64,
) -> bool {
    match e {
        Element::Text { style, .. } => styles.contains_key(style@),
        Element::Sprite { name, .. } => spec_sprite_ok(name@, cache, now) || spec_stepped_ok(
            err,
            now,
        ),
        _ => true,
    }
}

/// What the command produced by an element must be.
pub open spec fn spec_cmd_matches(
    e: Element,
    styles: Map<Seq<char>, BuiltTextStyle>,
    cache: Map<Seq<char>, BakedResource>,
    err: BakedResource,
    now: u64,
    c: DrawCommand,
) -> bool {
    match e {
        Element::Text { style, text, position, align } => c == (DrawCommand::Text {
            content: text,
            position,
            style: styles[style@],
            align,
        }),
        Element::Sprite { position, name, center } => (c matches DrawCommand::Image {
            data,
            position: p,
            center: ctr,
        } && p == position && ctr == center && data@ == (
        if spec_sprite_ok(name@, cache, now) {
            cache[name@].spec_step(now).spec_frame()
        } else {
            err.spec_step(now).spec_frame()
        })),
        Element::Line { start, end, color, stroke } => c == (DrawCommand::Line {
            start,
            end,
            style: spec_primitive_style(color, stroke, None),
        }),
        Element::Polyline { points, color, stroke } => (c matches DrawCommand::Polyline {
            points: ps,
            style,
        } && ps@ == points@ && style == spec_primitive_style(color, stroke, None)),
        Element::Rectangle { top_left, size, fill_color, stroke_color, stroke, rounded_corners } => (
        c matches DrawCommand::Rect { top_left: tl, size: sz, style, corners } && tl == top_left
            && sz == size && style == spec_primitive_style(stroke_color, stroke, fill_color)
            && corners == spec_corner_radii(rounded_corners)),
    }
}

/// The command list a render of `elements` must produce: one command per
/// emitting element, in element order, each matching its element against
/// the cache and placeholder state at its turn.
pub open spec fn spec_render_rel(
    elements: Seq<Element>,
    styles: Map<Seq<char>, BuiltTextStyle>,
    cache: Map<Seq<char>, BakedResource>,
    err: BakedResource,
    now: u64,
    cmds: Seq<DrawCommand>,
) -> bool
    decreases elements.len(),
{
    if elements.len() == 0 {
        cmds.len() == 0
    } else {
        let front = elements.drop_last();
        let e = elements.last();
        let cache1 = spec_cache_after_all(front, cache, now);
        let err1 = spec_err_after_all(front, cache, err, now);
        if spec_emits(e, styles, cache1, err1, now) {
            &&& cmds.len() > 0
            &&& spec_render_rel(front, styles, cache, err, now, cmds.drop_last())
            &&& spec_cmd_matches(e, styles, cache1, err1, now, cmds.last())
        } else {
            spec_render_rel(front, styles, cache, err, now, cmds)
        }
    }
}

/// Copies a point list.
fn copy_points(points: &Vec<Point>) -> (r: Vec<Point>)
    ensures
        r@ == points@,
{
    let n = points.len();
    let mut r: Vec<Point> = Vec::new();
    let mut i: usize = 0;
    while i < n
        invariant
            n == points@.len(),
            i <= n,
            r@ == points@.subrange(0, i as int),
        decreases n - i,
    {
        r.push(points[i]);
        proof {
            assert(points@.subrange(0, i + 1) =~= points@.subrange(0, i as int).push(
                points@[i as int],
            ));
        }
        i = i + 1;
    }
    proof {
        assert(points@.subrange(0, n as int) =~= points@);
    }
    r
}

/// Draws every element of a validated screen, in order, into a command
/// list.  Resident sprites advance their cursors; missing or undecodable
/// sprites draw the placeholder, advancing it instead.
pub fn render_config(
    config: &CheckedScreenConfig,
    sprite_register: &mut SpriteRegister,
    err_img: &mut BakedResource,
    now: u64,
) -> (cmds: Vec<DrawCommand>)
    requires
        old(sprite_register).wf(),
        old(err_img).wf(),
        config.styles.wf(),
    ensures
        final(sprite_register).wf(),
        final(err_img).wf(),
        final(sprite_register).cache() == spec_cache_after_all(
            config.screen.elements@,
            old(sprite_register).cache(),
            now,
        ),
        *final(err_img) == spec_err_after_all(
            config.screen.elements@,
            old(sprite_register).cache(),
            *old(err_img),
            now,
        ),
        spec_render_rel(
            config.screen.elements@,
            config.styles@,
            old(sprite_register).cache(),
            *old(err_img),
            now,
            cmds@,
        ),
{
    let ghost elements = config.screen.elements@;
    let ghost cache0 = old(sprite_register).cache();
    let ghost err0 = *old(err_img);
    let mut cmds: Vec<DrawCommand> = Vec::new();
    let n = config.screen.elements.len();
    let mut i: usize = 0;
    proof {
        assert(elements.subrange(0, 0) =~= Seq::<Element>::empty());
    }
    while i < n
        invariant
            n == config.screen.elements@.len(),
            i <= n,
            elements == config.screen.elements@,
            config.styles.wf(),
            cache0 == old(sprite_register).cache(),
            err0 == *old(err_img),
            sprite_register.wf(),
            err_img.wf(),
            sprite_register.cache() == spec_cache_after_all(
                elements.subrange(0, i as int),
                cache0,
                now,
            ),
            *err_img == spec_err_after_all(elements.subrange(0, i as int), cache0, err0, now),
            spec_render_rel(elements.subrange(0, i as int), config.styles@, cache0, err0, now, cmds@),
        decreases n - i,
    {
        let ghost prefix = elements.subrange(0, i as int);
        let ghost cache_i = sprite_register.cache();
        let ghost err_i = *err_img;
        let ghost cmds_i = cmds@;
        let e = &config.screen.elements[i];
        match e {
            Element::Sprite { position, name, center } => {
                match sprite_register.get_sprite(name, now) {
                    Some(data) => {
                        cmds.push(DrawCommand::Image { data, position: *position, center: *center });
                    },
                    None => {
                        match err_img.get_image(now) {
                            Ok(data) => {
                                if qoi_valid(&data) {
                                    cmds.push(
                                        DrawCommand::Image {
                                            data,
                                            position: *position,
                                            center: *center,
                                        },
                                    );
                                }
                            },
                            Err(_) => {},
                        }
                    },
                }
            },
            Element::Text { style, text, position, align } => {
                match config.styles.get(style) {
                    Some(st) => {
                        cmds.push(
                            DrawCommand::Text {
                                content: text.clone(),
                                position: *position,
                                style: *st,
                                align: *align,
                            },
                        );
                    },
                    None => {},
                }
            },
            Element::Line { start, end, color, stroke } => {
                let style = make_primitive_style(color, stroke, &None);
                cmds.push(DrawCommand::Line { start: *start, end: *end, style });
            },
            Element::Polyline { points, color, stroke } => {
                let style = make_primitive_style(color, stroke, &None);
                let ps = copy_points(points);
                cmds.push(DrawCommand::Polyline { points: ps, style });
            },
            Element::Rectangle { top_left, size, fill_color, stroke_color, stroke, rounded_corners } => {
                let style = make_primitive_style(stroke_color, stroke, fill_color);
                let corners = corner_radii(rounded_corners);
                cmds.push(
                    DrawCommand::Rect { top_left: *top_left, size: *size, style, corners },
                );
            },
        }
        proof {
            let prefix1 = elements.subrange(0, i + 1);
            assert(prefix1.drop_last() =~= prefix);
            assert(prefix1.last() == elements[i as int]);
            if spec_emits(elements[i as int], config.styles@, cache_i, err_i, now) {
                assert(cmds@.drop_last() =~= cmds_i);
            }
        }
        i = i + 1;
    }
    proof {
        assert(elements.subrange(0, n as int) =~= elements);
    }
    cmds
}

/// A redraw happens when the frame is dirty or the given condition holds;
/// the dirty flag records that a redraw is owed until the hand-off.
pub fn must_redraw(cond: bool, is_dirty: &mut bool) -> (r: bool)
    ensures
        r == (*old(is_dirty) || cond),
        *final(is_dirty) == r,
{
    if *is_dirty || cond {
        *is_dirty = true;
        true
    } else {
        false
    }
}

/// The sprite names a screen's elements refer to, as character sequences.
pub open spec fn spec_sprite_names(elements: Seq<Element>) -> Seq<Seq<char>>
    decreases elements.len(),
{
    if elements.len() == 0 {
        Seq::empty()
    } else {
        spec_sprite_names(elements.drop_last()) + (match elements.last() {
            Element::Sprite { name, .. } => seq![name@],
            _ => Seq::empty(),
        })
    }
}

/// Collects the sprite names a screen refers to.
pub fn sprite_names(screen: &Screen) -> (r: Vec<String>)
    ensures
        r@.map_values(|s: String| s@) == spec_sprite_names(screen.elements@),
{
    let n = screen.elements.len();
    let mut r: Vec<String> = Vec::new();
    let mut i: usize = 0;
    proof {
        assert(screen.elements@.subrange(0, 0) =~= Seq::<Element>::empty());
        assert(r@.map_values(|s: String| s@) =~= spec_sprite_names(screen.elements@.subrange(0, 0)));
    }
    while i < n
        invariant
            n == screen.elements@.len(),
            i <= n,
            r@.map_values(|s: String| s@) == spec_sprite_names(screen.elements@.subrange(0, i as int)),
        decreases n - i,
    {
        let ghost prefix = screen.elements@.subrange(0, i as int);
        let e = &screen.elements[i];
        match e {
            Element::Sprite { name, .. } => {
                r.push(name.clone());
            },
            _ => {},
        }
        proof {
            let prefix1 = screen.elements@.subrange(0, i + 1);
            assert(prefix1.drop_last() =~= prefix);
            assert(prefix1.last() == screen.elements@[i as int]);
            assert(r@.map_values(|s: String| s@) =~= spec_sprite_names(prefix1));
        }
        i = i + 1;
    }
    proof {
        assert(screen.elements@.subrange(0, n as int) =~= screen.elements@);
    }
    r
}

/// The set of names in a name list, as a set of character sequences.
pub open spec fn spec_name_views(s: Seq<Seq<char>>) -> Set<Seq<char>> {
    Set::new(|k: Seq<char>| s.contains(k))
}

/// A name list's set is the set of its views.
pub proof fn lemma_name_set_is_views(keep: Seq<String>, views: Seq<Seq<char>>)
    requires
        keep.map_values(|s: String| s@) == views,
    ensures
        name_set(keep) == spec_name_views(views),
{
    assert forall|k: Seq<char>| #[trigger] name_set(keep).contains(k) implies spec_name_views(
        views,
    ).contains(k) by {
        let j = choose|j: int| 0 <= j < keep.len() && (#[trigger] keep[j])@ == k;
        assert(views[j] == k);
    }
    assert forall|k: Seq<char>| #[trigger] spec_name_views(views).contains(k) implies name_set(
        keep,
    ).contains(k) by {
        let j = choose|j: int| 0 <= j < views.len() && views[j] == k;
        assert(keep[j]@ == k);
    }
    assert(name_set(keep) =~= spec_name_views(views));
}


/// Network/readiness phase, pushed by the connectivity collaborator;
/// last value wins, no history.
#[derive(Debug, Clone, Copy, PartialEq, Eq, Structural)]
pub enum SystemState {
    WIFIConnecting,
    WIFIWaitForIP,
    WIFIConnected,
    Disconnected,
    Failed,
    Ready,
}

/// The states in which the pushed scene is rendered.
pub open spec fn spec_is_up(s: SystemState) -> bool {
    s is Ready || s is WIFIConnected
}

/// The fixed message shown beside the status animation per state.
pub open spec fn spec_status_message(s: SystemState) -> Seq<char> {
    match s {
        SystemState::WIFIConnecting => "Connecting to WIFI"@,
        SystemState::Disconnected => "Lost WIFI..."@,
        SystemState::Failed => "Failed to connect. Retrying..."@,
        SystemState::WIFIWaitForIP => "Waiting for IP"@,
        _ => Seq::empty(),
    }
}

/// The status message for a non-ready state.
pub fn status_message(s: &SystemState) -> (m: String)
    ensures
        m@ == spec_status_message(*s),
{
    match s {
        SystemState::WIFIConnecting => String::from_str("Connecting to WIFI"),
        SystemState::Disconnected => String::from_str("Lost WIFI..."),
        SystemState::Failed => String::from_str("Failed to connect. Retrying..."),
        SystemState::WIFIWaitForIP => String::from_str("Waiting for IP"),
        SystemState::WIFIConnected => String::new(),
        SystemState::Ready => String::new(),
    }
}

/// Draws the status placeholder for a non-ready state: when a redraw is
/// owed, the connectivity animation's frame over the given message.
pub fn draw_connect_screen(
    wifi: &mut BakedResource,
    now: u64,
    needs_render: &mut bool,
    message: &str,
) -> (r: Option<DrawCommand>)
    requires
        old(wifi).wf(),
    ensures
        final(wifi).wf(),
        *final(wifi) == old(wifi).spec_step(now),
        *final(needs_render) == (*old(needs_render) || old(wifi).spec_due(now)),
        ({
            let redraw = *old(needs_render) || old(wifi).spec_due(now);
            if redraw && spec_stepped_ok(*old(wifi), now) {
                r matches Some(c) && (c matches DrawCommand::Status { message: m, image } && m@
                    == message@ && image@ == old(wifi).spec_step(now).spec_frame())
            } else {
                r is None
            }
        }),
{
    if must_redraw(wifi.needs_update(now), needs_render) {
        match wifi.get_image(now) {
            Ok(img) => {
                if qoi_valid(&img) {
                    Some(DrawCommand::Status { message: String::from_str(message), image: img })
                } else {
                    None
                }
            },
            Err(_) => None,
        }
    } else {
        None
    }
}

/// Some resident sprite's deadline has elapsed.
pub open spec fn spec_cache_due(cache: Map<Seq<char>, BakedResource>, now: u64) -> bool {
    exists|k: Seq<char>| #[trigger] cache.contains_key(k) && cache[k].spec_due(now)
}

/// The state the compositor will be in after the pending events: a new
/// connectivity value replaces the old one.
pub open spec fn spec_next_state(cur: SystemState, new_state: Option<SystemState>) -> SystemState {
    match new_state {
        Some(s) => s,
        None => cur,
    }
}

/// The compositor: owns the scene, the sprite cache, the built-in
/// animations, and the dirty flag that drives the buffer exchange.
pub struct Compositor {
    /// Last pushed connectivity state
    pub wifi_state: SystemState,
    /// Last accepted scene, if any
    pub display_config: Option<CheckedScreenConfig>,
    /// The sprite cache for the current scene
    pub sprite_register: SpriteRegister,
    /// Built-in connectivity animation
    pub wifi: BakedResource,
    /// Built-in idle animation, shown while no scene was ever pushed
    pub dino: BakedResource,
    /// Built-in placeholder for missing or undecodable sprites
    pub err_img: BakedResource,
    /// A redraw is owed and not yet handed off
    pub needs_render: bool,
}

/// What one pacing cycle hands back: the commands to draw (a full
/// repaint when non-empty), the readiness flag, and whether the painted
/// buffer should be exchanged.
pub struct StepOutput {
    pub commands: Vec<DrawCommand>,
    pub system_up: bool,
    pub exchange: bool,
}

impl Compositor {
    pub open spec fn wf(&self) -> bool {
        &&& self.sprite_register.wf()
        &&& self.wifi.wf()
        &&& self.dino.wf()
        &&& self.err_img.wf()
        &&& (self.display_config matches Some(c) ==> c.styles.wf())
    }

    /// A fresh compositor: connecting, no scene, empty cache, first
    /// frame owed.
    pub fn new(now: u64) -> (c: Self)
        ensures
            c.wf(),
            c.wifi_state is WIFIConnecting,
            c.display_config is None,
            c.sprite_register.cache() == Map::<Seq<char>, BakedResource>::empty(),
            c.needs_render,
    {
        Compositor {
            wifi_state: SystemState::WIFIConnecting,
            display_config: None,
            sprite_register: SpriteRegister::new(),
            wifi: get_wifi_sprite(now),
            dino: get_dino_sprite(now),
            err_img: get_no_image_sprite(now),
            needs_render: true,
        }
    }

    /// Consumes the pending events: a pushed connectivity state replaces
    /// the old one; in a ready state a pushed scene replaces the old one
    /// and the cache is reconciled to exactly the sprites the new scene
    /// refers to (`clear` then `prepare`); a pushed "no scene" clears
    /// both.  In a non-ready state scene pushes stay pending.
    pub fn apply_events(
        &mut self,
        new_state: Option<SystemState>,
        new_config: Option<Option<CheckedScreenConfig>>,
        store: &PersistentStore,
        now: u64,
    )
        requires
            old(self).wf(),
            store.wf(),
            (new_config matches Some(u) ==> (u matches Some(c) ==> c.styles.wf())),
        ensures
            final(self).wf(),
            final(self).wifi_state == spec_next_state(old(self).wifi_state, new_state),
            final(self).wifi == old(self).wifi,
            final(self).dino == old(self).dino,
            final(self).err_img == old(self).err_img,
            !spec_is_up(spec_next_state(old(self).wifi_state, new_state)) ==> (
                final(self).display_config == old(self).display_config
                && final(self).sprite_register.cache() == old(self).sprite_register.cache()
                && final(self).needs_render == (old(self).needs_render || new_state is Some)),
            spec_is_up(spec_next_state(old(self).wifi_state, new_state)) ==> match new_config {
                None => final(self).display_config == old(self).display_config && final(self).sprite_register.cache() == old(self).sprite_register.cache() && final(self).needs_render == (old(self).needs_render || new_state is Some),
                Some(None) => final(self).display_config is None && final(self).sprite_register.cache() == Map::<Seq<char>, BakedResource>::empty() && final(self).needs_render,
                Some(Some(c)) => final(self).display_config == Some(c) && final(self).needs_render
                    && spec_prepared(
                    old(self).sprite_register.cache().restrict(
                        spec_name_views(spec_sprite_names(c.screen.elements@)),
                    ),
                    final(self).sprite_register.cache(),
                    spec_name_views(spec_sprite_names(c.screen.elements@)),
                    store.contents(),
                    now,
                ),
            },
    {
        match new_state {
            Some(s) => {
                self.wifi_state = s;
                self.needs_render = true;
            },
            None => {},
        }
        let up = match self.wifi_state {
            SystemState::Ready => true,
            SystemState::WIFIConnected => true,
            _ => false,
        };
        if up {
            match new_config {
                Some(update) => {
                    match update {
                        Some(conf) => {
                            let keep = sprite_names(&conf.screen);
                            self.sprite_register.clear(&keep);
                            self.sprite_register.prepare(&keep, store, now);
                            proof {
                                lemma_name_set_is_views(
                                    keep@,
                                    spec_sprite_names(conf.screen.elements@),
                                );
                            }
                            self.display_config = Some(conf);
                        },
                        None => {
                            let no_names: Vec<String> = Vec::new();
                            self.sprite_register.clear(&no_names);
                            proof {
                                assert(old(self).sprite_register.cache().restrict(
                                    name_set(no_names@),
                                ) =~= Map::<Seq<char>, BakedResource>::empty());
                            }
                            self.display_config = None;
                        },
                    }
                    self.needs_render = true;
                },
                None => {},
            }
        }
    }

    /// One drawing pass: decides whether a redraw is owed (the dirty flag
    /// or an elapsed animation deadline), produces the commands for the
    /// current state, and reports whether the buffer should be handed to
    /// the exchange.  The dirty flag is cleared by the hand-off.
    pub fn render(&mut self, now: u64) -> (out: StepOutput)
        requires
            old(self).wf(),
        ensures
            final(self).wf(),
            final(self).wifi_state == old(self).wifi_state,
            final(self).needs_render == false,
            out.system_up == spec_is_up(old(self).wifi_state),
            out.exchange == (old(self).needs_render || ({
                if !spec_is_up(old(self).wifi_state) {
                    old(self).wifi.spec_due(now)
                } else {
                    match old(self).display_config {
                        Some(_) => spec_cache_due(old(self).sprite_register.cache(), now),
                        None => old(self).dino.spec_due(now),
                    }
                }
            })),
            !spec_is_up(old(self).wifi_state) ==> (
                final(self).display_config == old(self).display_config
                && final(self).sprite_register.cache() == old(self).sprite_register.cache()
                && final(self).dino == old(self).dino
                && final(self).err_img == old(self).err_img
                && final(self).wifi == old(self).wifi.spec_step(now)
                && ({
                    let redraw = old(self).needs_render || old(self).wifi.spec_due(now);
                    if redraw && spec_stepped_ok(old(self).wifi, now) {
                        out.commands@.len() == 1 && (out.commands@[0] matches DrawCommand::Status {
                            message,
                            image,
                        } && message@ == spec_status_message(old(self).wifi_state) && image@ == old(self).wifi.spec_step(now).spec_frame())
                    } else {
                        out.commands@.len() == 0
                    }
                })),
            spec_is_up(old(self).wifi_state) ==> (old(self).display_config matches Some(cfg) ==> (
                final(self).wifi == old(self).wifi
                && final(self).dino == old(self).dino
                && final(self).display_config == old(self).display_config
                && ({
                    let redraw = old(self).needs_render || spec_cache_due(
                        old(self).sprite_register.cache(),
                        now,
                    );
                    if redraw {
                        &&& final(self).sprite_register.cache() == spec_cache_after_all(
                            cfg.screen.elements@,
                            old(self).sprite_register.cache(),
                            now,
                        )
                        &&& final(self).err_img == spec_err_after_all(
                            cfg.screen.elements@,
                            old(self).sprite_register.cache(),
                            old(self).err_img,
                            now,
                        )
                        &&& spec_render_rel(
                            cfg.screen.elements@,
                            cfg.styles@,
                            old(self).sprite_register.cache(),
                            old(self).err_img,
                            now,
                            out.commands@,
                        )
                    } else {
                        final(self).sprite_register.cache() == old(self).sprite_register.cache()
                            && final(self).err_img == old(self).err_img && out.commands@.len() == 0
                    }
                }))),
            (spec_is_up(old(self).wifi_state) && old(self).display_config is None) ==> (
                final(self).wifi == old(self).wifi
                && final(self).sprite_register.cache() == old(self).sprite_register.cache()
                && final(self).err_img == old(self).err_img
                && final(self).display_config is None
                && final(self).dino == old(self).dino.spec_step(now)
                && ({
                    let redraw = old(self).needs_render || old(self).dino.spec_due(now);
                    if redraw && spec_stepped_ok(old(self).dino, now) {
                        out.commands@.len() == 1 && (out.commands@[0] matches DrawCommand::Image {
                            data,
                            position,
                            center,
                        } && data@ == old(self).dino.spec_step(now).spec_frame() && position == (
                        Point { x: 0, y: 0 }) && center is None)
                    } else {
                        out.commands@.len() == 0
                    }
                })),
    {
        let mut commands: Vec<DrawCommand> = Vec::new();
        let system_up: bool;
        let up = match self.wifi_state {
            SystemState::Ready => true,
            SystemState::WIFIConnected => true,
            _ => false,
        };
        if up {
            system_up = true;
            match self.display_config.take() {
                Some(conf) => {
                    let cond = self.sprite_register.needs_redraw(now);
                    if must_redraw(cond, &mut self.needs_render) {
                        commands = render_config(
                            &conf,
                            &mut self.sprite_register,
                            &mut self.err_img,
                            now,
                        );
                    }
                    self.display_config = Some(conf);
                },
                None => {
                    if must_redraw(self.dino.needs_update(now), &mut self.needs_render) {
                        match self.dino.get_image(now) {
                            Ok(img) => {
                                if qoi_valid(&img) {
                                    commands.push(
                                        DrawCommand::Image {
                                            data: img,
                                            position: Point { x: 0, y: 0 },
                                            center: None,
                                        },
                                    );
                                }
                            },
                            Err(_) => {},
                        }
                    }
                },
            }
        } else {
            system_up = false;
            let msg = status_message(&self.wifi_state);
            let cmd = draw_connect_screen(&mut self.wifi, now, &mut self.needs_render, msg.as_str());
            match cmd {
                Some(c) => {
                    commands.push(c);
                },
                None => {},
            }
        }
        let exchange = self.needs_render;
        self.needs_render = false;
        StepOutput { commands, system_up, exchange }
    }
}

} // verus!
