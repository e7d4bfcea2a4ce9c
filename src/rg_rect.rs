//! A node: a rectangle in world space with its interaction state, its
//! hit-testing against a screen point and its move and resize sessions.
use vstd::prelude::*;
use crate::viewport::{
    floor_div, in_world, lemma_div_magnitude, lemma_scaled_bound, to_screen, to_world,
    valid_pan, valid_zoom, MAX_ZOOM, PAN_LIMIT, SCREEN_LIMIT, WORLD_LIMIT, ZOOM_UNIT,
};

verus! {

/// A point on the canvas, in milli-pixels.
#[derive(Clone, Copy, Debug, PartialEq, Eq, Structural)]
pub struct Point {
    pub x: i64,
    pub y: i64,
}

/// Region of a node that a screen point falls on: one of the eight resize
/// grips, the body, or nothing.
#[derive(Clone, Copy, Debug, PartialEq, Eq, Structural)]
pub enum ResizeHandle {
    TopLeft,
    Top,
    TopRight,
    Right,
    BottomRight,
    Bottom,
    BottomLeft,
    Left,
    Body,
    Outside,
}

/// Cursor shape to show over a region of a node.
#[derive(Clone, Copy, Debug, PartialEq, Eq, Structural)]
pub enum CursorStyle {
    ResizeUpLeftDownRight,
    ResizeUpRightDownLeft,
    ResizeUpDown,
    ResizeLeftRight,
    PointingHand,
    Arrow,
}

/// Bound on the magnitude of a pointer position relative to the canvas (milli-pixels).
pub const POINTER_LIMIT: i64 = 2 * SCREEN_LIMIT;

/// A resize never leaves a node this small or smaller (world units).
pub const MIN_SIZE: i64 = 10;

/// Bound on the magnitude of a move anchor (world units).
pub const OFFSET_LIMIT: i64 = 4 * PAN_LIMIT;

pub open spec fn valid_point(p: Point) -> bool {
    -POINTER_LIMIT <= p.x <= POINTER_LIMIT && -POINTER_LIMIT <= p.y <= POINTER_LIMIT
}

/// A size that a resize may produce.
pub open spec fn size_ok(s: int) -> bool {
    MIN_SIZE < s <= WORLD_LIMIT
}

/// New (position, size) along one axis of a resize, from the anchor position
/// `p0` and size `s0` and the pointer's world coordinate `w`. A grip on the low
/// side moves the position to the pointer; one on the high side keeps it. The
/// pair is applied only when the new size is acceptable (and the new position
/// lies in the world); otherwise the current `(pos, size)` stays.
pub open spec fn resize_axis(
    low: bool,
    high: bool,
    pos: int,
    size: int,
    p0: int,
    s0: int,
    w: int,
) -> (int, int) {
    if low {
        let ns = s0 + (p0 - w);
        if size_ok(ns) && in_world(w) { (w, ns) } else { (pos, size) }
    } else if high {
        let ns = w - p0;
        if size_ok(ns) { (pos, ns) } else { (pos, size) }
    } else {
        (pos, size)
    }
}

impl ResizeHandle {
    pub open spec fn moves_left(self) -> bool {
        self == ResizeHandle::TopLeft || self == ResizeHandle::BottomLeft || self == ResizeHandle::Left
    }

    pub open spec fn moves_right(self) -> bool {
        self == ResizeHandle::TopRight || self == ResizeHandle::BottomRight || self == ResizeHandle::Right
    }

    pub open spec fn moves_top(self) -> bool {
        self == ResizeHandle::TopLeft || self == ResizeHandle::TopRight || self == ResizeHandle::Top
    }

    pub open spec fn moves_bottom(self) -> bool {
        self == ResizeHandle::BottomLeft || self == ResizeHandle::BottomRight || self == ResizeHandle::Bottom
    }

    /// One of the eight resize grips.
    pub open spec fn is_grip(self) -> bool {
        self != ResizeHandle::Body && self != ResizeHandle::Outside
    }

    pub open spec fn cursor(self) -> CursorStyle {
        match self {
            ResizeHandle::TopLeft | ResizeHandle::BottomRight => CursorStyle::ResizeUpLeftDownRight,
            ResizeHandle::TopRight | ResizeHandle::BottomLeft => CursorStyle::ResizeUpRightDownLeft,
            ResizeHandle::Top | ResizeHandle::Bottom => CursorStyle::ResizeUpDown,
            ResizeHandle::Left | ResizeHandle::Right => CursorStyle::ResizeLeftRight,
            ResizeHandle::Body => CursorStyle::PointingHand,
            ResizeHandle::Outside => CursorStyle::Arrow,
        }
    }

    fn sides(&self) -> (r: (bool, bool, bool, bool))
        ensures
            r == (self.moves_left(), self.moves_right(), self.moves_top(), self.moves_bottom()),
    {
        match self {
            ResizeHandle::TopLeft => (true, false, true, false),
            ResizeHandle::Top => (false, false, true, false),
            ResizeHandle::TopRight => (false, true, true, false),
            ResizeHandle::Right => (false, true, false, false),
            ResizeHandle::BottomRight => (false, true, false, true),
            ResizeHandle::Bottom => (false, false, false, true),
            ResizeHandle::BottomLeft => (true, false, false, true),
            ResizeHandle::Left => (true, false, false, false),
            _ => (false, false, false, false),
        }
    }
}

fn resize_axis_exec(low: bool, high: bool, pos: i64, size: i64, p0: i64, s0: i64, w: i64) -> (r: (
    i64,
    i64,
))
    requires
        in_world(pos as int),
        in_world(p0 as int),
        0 <= s0 <= WORLD_LIMIT,
        -OFFSET_LIMIT <= w <= OFFSET_LIMIT,
    ensures
        (r.0 as int, r.1 as int) == resize_axis(low, high, pos as int, size as int, p0 as int, s0 as int, w as int),
{
    if low {
        let ns = s0 + (p0 - w);
        if MIN_SIZE < ns && ns <= WORLD_LIMIT && -WORLD_LIMIT <= w && w <= WORLD_LIMIT {
            (w, ns)
        } else {
            (pos, size)
        }
    } else if high {
        let ns = w - p0;
        if MIN_SIZE < ns && ns <= WORLD_LIMIT {
            (pos, ns)
        } else {
            (pos, size)
        }
    } else {
        (pos, size)
    }
}

/// A rectangle in world space, with the view transform it is drawn under and
/// its selection and drag state.
#[derive(Clone, Copy, Debug)]
pub struct RgRect {
    pub id: u64,
    pub x: i64,
    pub y: i64,
    pub width: i64,
    pub height: i64,
    /// While moving: pointer position minus node position, in world units.
    pub drag_offset: Option<(i64, i64)>,
    pub resize_handle: ResizeHandle,
    pub zoom: i64,
    pub pan: (i64, i64),
    pub selected: bool,
    /// While resizing: the node's `(x, y, width, height)` when the resize began.
    pub initial_drag_data: Option<(i64, i64, i64, i64)>,
    pub is_dragging: bool,
    pub is_resizing: bool,
    pub current_mouse_position: Option<Point>,
    pub show_handles: bool,
}

pub open spec fn offset_ok(o: Option<(i64, i64)>) -> bool {
    match o {
        Some((a, b)) => -OFFSET_LIMIT <= a <= OFFSET_LIMIT && -OFFSET_LIMIT <= b <= OFFSET_LIMIT,
        None => true,
    }
}

pub open spec fn anchor_ok(a: Option<(i64, i64, i64, i64)>) -> bool {
    match a {
        Some((x0, y0, w0, h0)) => in_world(x0 as int) && in_world(y0 as int) && 0 <= w0
            <= WORLD_LIMIT && 0 <= h0 <= WORLD_LIMIT,
        None => true,
    }
}

impl RgRect {
    pub open spec fn wf(&self) -> bool {
        &&& in_world(self.x as int)
        &&& in_world(self.y as int)
        &&& 0 <= self.width <= WORLD_LIMIT
        &&& 0 <= self.height <= WORLD_LIMIT
        &&& valid_zoom(self.zoom as int)
        &&& valid_pan(self.pan)
        &&& offset_ok(self.drag_offset)
        &&& anchor_ok(self.initial_drag_data)
    }

    pub open spec fn screen_x(&self) -> int {
        to_screen(self.pan.0 as int, self.zoom as int, self.x as int)
    }

    pub open spec fn screen_y(&self) -> int {
        to_screen(self.pan.1 as int, self.zoom as int, self.y as int)
    }

    pub open spec fn screen_w(&self) -> int {
        self.width * self.zoom
    }

    pub open spec fn screen_h(&self) -> int {
        self.height * self.zoom
    }

    /// Screen units per pixel of grip and edge tolerance: the zoom, but never below one.
    pub open spec fn grip_scale(&self) -> int {
        if self.zoom >= ZOOM_UNIT { self.zoom as int } else { ZOOM_UNIT as int }
    }

    /// Inclusive containment of `p` in the node's screen rectangle.
    pub open spec fn contains(&self, p: Point) -> bool {
        &&& self.screen_x() <= p.x <= self.screen_x() + self.screen_w()
        &&& self.screen_y() <= p.y <= self.screen_y() + self.screen_h()
    }

    pub open spec fn body_or_none(&self, p: Point) -> ResizeHandle {
        if self.contains(p) { ResizeHandle::Body } else { ResizeHandle::Outside }
    }

    /// Screen position of a grip's center: a corner or an edge midpoint.
    pub open spec fn handle_center(&self, h: ResizeHandle) -> (int, int) {
        let (sx, sy, sw, sh) = (self.screen_x(), self.screen_y(), self.screen_w(), self.screen_h());
        match h {
            ResizeHandle::TopLeft => (sx, sy),
            ResizeHandle::Top => (sx + sw / 2, sy),
            ResizeHandle::TopRight => (sx + sw, sy),
            ResizeHandle::Right => (sx + sw, sy + sh / 2),
            ResizeHandle::BottomRight => (sx + sw, sy + sh),
            ResizeHandle::Bottom => (sx + sw / 2, sy + sh),
            ResizeHandle::BottomLeft => (sx, sy + sh),
            ResizeHandle::Left => (sx, sy + sh / 2),
            _ => (0, 0),
        }
    }

    /// `p` lies on the square grip footprint (side 12 pixels, scaled) around `h`'s center.
    pub open spec fn on_grip(&self, h: ResizeHandle, p: Point) -> bool {
        let c = self.handle_center(h);
        let half = 6 * self.grip_scale();
        &&& c.0 - half <= p.x <= c.0 + half
        &&& c.1 - half <= p.y <= c.1 + half
    }

    /// `p` lies in the band (8 pixels, scaled, each way) along the edge of grip `h`.
    pub open spec fn on_edge_band(&self, h: ResizeHandle, p: Point) -> bool {
        let (sx, sy, sw, sh) = (self.screen_x(), self.screen_y(), self.screen_w(), self.screen_h());
        let t = 8 * self.grip_scale();
        match h {
            ResizeHandle::Left => sx - t <= p.x <= sx + t && sy - t <= p.y <= sy + sh + t,
            ResizeHandle::Right => sx + sw - t <= p.x <= sx + sw + t && sy - t <= p.y <= sy + sh
                + t,
            ResizeHandle::Top => sy - t <= p.y <= sy + t && sx - t <= p.x <= sx + sw + t,
            ResizeHandle::Bottom => sy + sh - t <= p.y <= sy + sh + t && sx - t <= p.x <= sx + sw
                + t,
            _ => false,
        }
    }

    /// Classification of `p`: grips in a fixed order, then edge bands, then the body.
    /// Grips and bands count only on a selected node whose handles are shown.
    pub open spec fn handle_at(&self, p: Point) -> ResizeHandle {
        if !self.selected || !self.show_handles {
            self.body_or_none(p)
        } else if self.on_grip(ResizeHandle::TopLeft, p) {
            ResizeHandle::TopLeft
        } else if self.on_grip(ResizeHandle::Top, p) {
            ResizeHandle::Top
        } else if self.on_grip(ResizeHandle::TopRight, p) {
            ResizeHandle::TopRight
        } else if self.on_grip(ResizeHandle::Right, p) {
            ResizeHandle::Right
        } else if self.on_grip(ResizeHandle::BottomRight, p) {
            ResizeHandle::BottomRight
        } else if self.on_grip(ResizeHandle::Bottom, p) {
            ResizeHandle::Bottom
        } else if self.on_grip(ResizeHandle::BottomLeft, p) {
            ResizeHandle::BottomLeft
        } else if self.on_grip(ResizeHandle::Left, p) {
            ResizeHandle::Left
        } else if self.on_edge_band(ResizeHandle::Left, p) {
            ResizeHandle::Left
        } else if self.on_edge_band(ResizeHandle::Right, p) {
            ResizeHandle::Right
        } else if self.on_edge_band(ResizeHandle::Top, p) {
            ResizeHandle::Top
        } else if self.on_edge_band(ResizeHandle::Bottom, p) {
            ResizeHandle::Bottom
        } else {
            self.body_or_none(p)
        }
    }

    pub open spec fn world_x_of(&self, p: Point) -> int {
        to_world(self.pan.0 as int, self.zoom as int, p.x as int)
    }

    pub open spec fn world_y_of(&self, p: Point) -> int {
        to_world(self.pan.1 as int, self.zoom as int, p.y as int)
    }

    /// The node after a session begins at `p` on region `h`: a move on the body,
    /// a resize on a grip, nothing elsewhere.
    pub open spec fn started(self, p: Point, h: ResizeHandle) -> RgRect {
        if h == ResizeHandle::Body {
            RgRect {
                is_dragging: true,
                drag_offset: Some(
                    ((self.world_x_of(p) - self.x) as i64, (self.world_y_of(p) - self.y) as i64),
                ),
                ..self
            }
        } else if h != ResizeHandle::Outside {
            RgRect {
                is_resizing: true,
                resize_handle: h,
                initial_drag_data: Some((self.x, self.y, self.width, self.height)),
                ..self
            }
        } else {
            self
        }
    }

    /// The node after the pointer moves to `p` during its session. A move
    /// translates the node by the pointer (an axis that would leave the world
    /// stays); a resize recomputes each axis from the anchor rectangle.
    pub open spec fn dragged(self, p: Point) -> RgRect {
        let wx = self.world_x_of(p);
        let wy = self.world_y_of(p);
        if self.is_dragging {
            match self.drag_offset {
                Some((ox, oy)) => {
                    let nx = wx - ox;
                    let ny = wy - oy;
                    RgRect {
                        x: if in_world(nx) { nx as i64 } else { self.x },
                        y: if in_world(ny) { ny as i64 } else { self.y },
                        ..self
                    }
                },
                None => self,
            }
        } else if self.is_resizing {
            match self.initial_drag_data {
                Some((x0, y0, w0, h0)) => {
                    let h = self.resize_handle;
                    let hx = resize_axis(h.moves_left(), h.moves_right(), self.x as int, self.width as int, x0 as int, w0 as int, wx);
                    let hy = resize_axis(h.moves_top(), h.moves_bottom(), self.y as int, self.height as int, y0 as int, h0 as int, wy);
                    RgRect {
                        x: hx.0 as i64,
                        width: hx.1 as i64,
                        y: hy.0 as i64,
                        height: hy.1 as i64,
                        ..self
                    }
                },
                None => self,
            }
        } else {
            self
        }
    }

    /// The node after its session ends.
    pub open spec fn ended(self) -> RgRect {
        RgRect {
            is_dragging: false,
            is_resizing: false,
            drag_offset: None,
            initial_drag_data: None,
            resize_handle: ResizeHandle::Outside,
            ..self
        }
    }

    /// The node with no session open.
    pub open spec fn idle(&self) -> bool {
        !self.is_dragging && !self.is_resizing && self.drag_offset is None
            && self.initial_drag_data is None && self.resize_handle == ResizeHandle::Outside
    }

    /// A node at `(x, y)` of size `width` x `height`, unselected, with handles
    /// shown, drawn at zoom one and no pan.
    pub fn new(id: u64, x: i64, y: i64, width: i64, height: i64) -> (r: Self)
        requires
            in_world(x as int),
            in_world(y as int),
            0 <= width <= WORLD_LIMIT,
            0 <= height <= WORLD_LIMIT,
        ensures
            r.wf(),
            r.idle(),
            r.id == id && r.x == x && r.y == y && r.width == width && r.height == height,
            r.zoom == ZOOM_UNIT && r.pan == (0i64, 0i64),
            !r.selected && r.show_handles && r.current_mouse_position is None,
    {
        RgRect {
            id,
            x,
            y,
            width,
            height,
            drag_offset: None,
            resize_handle: ResizeHandle::Outside,
            zoom: ZOOM_UNIT,
            pan: (0, 0),
            selected: false,
            initial_drag_data: None,
            is_dragging: false,
            is_resizing: false,
            current_mouse_position: None,
            show_handles: true,
        }
    }

    pub fn screen_position(&self) -> (r: (i64, i64))
        requires
            self.wf(),
        ensures
            r.0 == self.screen_x() && r.1 == self.screen_y(),
    {
        self.world_to_screen(self.x, self.y)
    }

    pub fn screen_size(&self) -> (r: (i64, i64))
        requires
            self.wf(),
        ensures
            r.0 == self.screen_w() && r.1 == self.screen_h(),
    {
        proof {
            lemma_scaled_bound(self.width as int, self.zoom as int);
            lemma_scaled_bound(self.height as int, self.zoom as int);
        }
        (self.width * self.zoom, self.height * self.zoom)
    }

    pub fn world_to_screen(&self, world_x: i64, world_y: i64) -> (r: (i64, i64))
        requires
            self.wf(),
            in_world(world_x as int),
            in_world(world_y as int),
        ensures
            r.0 == to_screen(self.pan.0 as int, self.zoom as int, world_x as int),
            r.1 == to_screen(self.pan.1 as int, self.zoom as int, world_y as int),
    {
        proof {
            lemma_scaled_bound(world_x as int, self.zoom as int);
            lemma_scaled_bound(world_y as int, self.zoom as int);
        }
        (self.pan.0 + world_x * self.zoom, self.pan.1 + world_y * self.zoom)
    }

    pub fn screen_to_world(&self, screen_x: i64, screen_y: i64) -> (r: (i64, i64))
        requires
            self.wf(),
            -POINTER_LIMIT <= screen_x <= POINTER_LIMIT,
            -POINTER_LIMIT <= screen_y <= POINTER_LIMIT,
        ensures
            r.0 == to_world(self.pan.0 as int, self.zoom as int, screen_x as int),
            r.1 == to_world(self.pan.1 as int, self.zoom as int, screen_y as int),
            -2 * PAN_LIMIT <= r.0 <= 2 * PAN_LIMIT,
            -2 * PAN_LIMIT <= r.1 <= 2 * PAN_LIMIT,
    {
        proof {
            lemma_div_magnitude(screen_x - self.pan.0, self.zoom as int);
            lemma_div_magnitude(screen_y - self.pan.1, self.zoom as int);
        }
        (floor_div(screen_x - self.pan.0, self.zoom), floor_div(screen_y - self.pan.1, self.zoom))
    }

    pub fn get_handle_position(&self, handle: ResizeHandle) -> (r: (i64, i64))
        requires
            self.wf(),
        ensures
            (r.0 as int, r.1 as int) == self.handle_center(handle),
    {
        let (sx, sy) = self.screen_position();
        let (sw, sh) = self.screen_size();
        proof {
            lemma_scaled_bound(self.x as int, self.zoom as int);
            lemma_scaled_bound(self.y as int, self.zoom as int);
            lemma_scaled_bound(self.width as int, self.zoom as int);
            lemma_scaled_bound(self.height as int, self.zoom as int);
        }
        match handle {
            ResizeHandle::TopLeft => (sx, sy),
            ResizeHandle::Top => (sx + sw / 2, sy),
            ResizeHandle::TopRight => (sx + sw, sy),
            ResizeHandle::Right => (sx + sw, sy + sh / 2),
            ResizeHandle::BottomRight => (sx + sw, sy + sh),
            ResizeHandle::Bottom => (sx + sw / 2, sy + sh),
            ResizeHandle::BottomLeft => (sx, sy + sh),
            ResizeHandle::Left => (sx, sy + sh / 2),
            _ => (0, 0),
        }
    }

    fn grip_scale_exec(&self) -> (r: i64)
        requires
            self.wf(),
        ensures
            r == self.grip_scale(),
            ZOOM_UNIT <= r <= MAX_ZOOM,
    {
        if self.zoom >= ZOOM_UNIT {
            self.zoom
        } else {
            ZOOM_UNIT
        }
    }

    fn contains_exec(&self, p: Point) -> (r: bool)
        requires
            self.wf(),
            valid_point(p),
        ensures
            r == self.contains(p),
    {
        let (sx, sy) = self.screen_position();
        let (sw, sh) = self.screen_size();
        proof {
            lemma_scaled_bound(self.x as int, self.zoom as int);
            lemma_scaled_bound(self.y as int, self.zoom as int);
            lemma_scaled_bound(self.width as int, self.zoom as int);
            lemma_scaled_bound(self.height as int, self.zoom as int);
        }
        sx <= p.x && p.x <= sx + sw && sy <= p.y && p.y <= sy + sh
    }

    fn body_or_none_exec(&self, p: Point) -> (r: ResizeHandle)
        requires
            self.wf(),
            valid_point(p),
        ensures
            r == self.body_or_none(p),
    {
        if self.contains_exec(p) {
            ResizeHandle::Body
        } else {
            ResizeHandle::Outside
        }
    }

    fn on_grip_exec(&self, h: ResizeHandle, p: Point) -> (r: bool)
        requires
            self.wf(),
            valid_point(p),
        ensures
            r == self.on_grip(h, p),
    {
        let (hx, hy) = self.get_handle_position(h);
        let half = 6 * self.grip_scale_exec();
        proof {
            lemma_scaled_bound(self.x as int, self.zoom as int);
            lemma_scaled_bound(self.y as int, self.zoom as int);
            lemma_scaled_bound(self.width as int, self.zoom as int);
            lemma_scaled_bound(self.height as int, self.zoom as int);
        }
        hx - half <= p.x && p.x <= hx + half && hy - half <= p.y && p.y <= hy + half
    }

    fn on_edge_band_exec(&self, h: ResizeHandle, p: Point) -> (r: bool)
        requires
            self.wf(),
            valid_point(p),
        ensures
            r == self.on_edge_band(h, p),
    {
        let (sx, sy) = self.screen_position();
        let (sw, sh) = self.screen_size();
        let t = 8 * self.grip_scale_exec();
        proof {
            lemma_scaled_bound(self.x as int, self.zoom as int);
            lemma_scaled_bound(self.y as int, self.zoom as int);
            lemma_scaled_bound(self.width as int, self.zoom as int);
            lemma_scaled_bound(self.height as int, self.zoom as int);
        }
        match h {
            ResizeHandle::Left => sx - t <= p.x && p.x <= sx + t && sy - t <= p.y && p.y <= sy + sh
                + t,
            ResizeHandle::Right => sx + sw - t <= p.x && p.x <= sx + sw + t && sy - t <= p.y && p.y
                <= sy + sh + t,
            ResizeHandle::Top => sy - t <= p.y && p.y <= sy + t && sx - t <= p.x && p.x <= sx + sw
                + t,
            ResizeHandle::Bottom => sy + sh - t <= p.y && p.y <= sy + sh + t && sx - t <= p.x && p.x
                <= sx + sw + t,
            _ => false,
        }
    }

    /// Classifies `position` against this node (see `handle_at`).
    pub fn detect_handle_at(&self, position: Point) -> (r: ResizeHandle)
        requires
            self.wf(),
            valid_point(position),
        ensures
            r == self.handle_at(position),
    {
        let p = position;
        if !self.selected || !self.show_handles {
            return self.body_or_none_exec(p);
        }
        if self.on_grip_exec(ResizeHandle::TopLeft, p) {
            ResizeHandle::TopLeft
        } else if self.on_grip_exec(ResizeHandle::Top, p) {
            ResizeHandle::Top
        } else if self.on_grip_exec(ResizeHandle::TopRight, p) {
            ResizeHandle::TopRight
        } else if self.on_grip_exec(ResizeHandle::Right, p) {
            ResizeHandle::Right
        } else if self.on_grip_exec(ResizeHandle::BottomRight, p) {
            ResizeHandle::BottomRight
        } else if self.on_grip_exec(ResizeHandle::Bottom, p) {
            ResizeHandle::Bottom
        } else if self.on_grip_exec(ResizeHandle::BottomLeft, p) {
            ResizeHandle::BottomLeft
        } else if self.on_grip_exec(ResizeHandle::Left, p) {
            ResizeHandle::Left
        } else if self.on_edge_band_exec(ResizeHandle::Left, p) {
            ResizeHandle::Left
        } else if self.on_edge_band_exec(ResizeHandle::Right, p) {
            ResizeHandle::Right
        } else if self.on_edge_band_exec(ResizeHandle::Top, p) {
            ResizeHandle::Top
        } else if self.on_edge_band_exec(ResizeHandle::Bottom, p) {
            ResizeHandle::Bottom
        } else {
            self.body_or_none_exec(p)
        }
    }

    pub fn get_cursor_for_handle(handle: ResizeHandle) -> (r: CursorStyle)
        ensures
            r == handle.cursor(),
    {
        match handle {
            ResizeHandle::TopLeft | ResizeHandle::BottomRight => CursorStyle::ResizeUpLeftDownRight,
            ResizeHandle::TopRight | ResizeHandle::BottomLeft => CursorStyle::ResizeUpRightDownLeft,
            ResizeHandle::Top | ResizeHandle::Bottom => CursorStyle::ResizeUpDown,
            ResizeHandle::Left | ResizeHandle::Right => CursorStyle::ResizeLeftRight,
            ResizeHandle::Body => CursorStyle::PointingHand,
            ResizeHandle::Outside => CursorStyle::Arrow,
        }
    }

    /// Opens a session at `position` on region `handle` (see `started`).
    pub fn start_drag(&mut self, position: Point, handle: ResizeHandle)
        requires
            old(self).wf(),
            valid_point(position),
        ensures
            *final(self) == old(self).started(position, handle),
            final(self).wf(),
    {
        let (wx, wy) = self.screen_to_world(position.x, position.y);
        match handle {
            ResizeHandle::Body => {
                self.is_dragging = true;
                self.drag_offset = Some((wx - self.x, wy - self.y));
            },
            ResizeHandle::Outside => {},
            _ => {
                self.is_resizing = true;
                self.resize_handle = handle;
                self.initial_drag_data = Some((self.x, self.y, self.width, self.height));
            },
        }
    }

    /// Follows the pointer to `position` within the open session (see `dragged`).
    pub fn update_drag(&mut self, position: Point)
        requires
            old(self).wf(),
            valid_point(position),
        ensures
            *final(self) == old(self).dragged(position),
            final(self).wf(),
    {
        let (wx, wy) = self.screen_to_world(position.x, position.y);
        if self.is_dragging {
            if let Some((ox, oy)) = self.drag_offset {
                let nx = wx - ox;
                let ny = wy - oy;
                if -WORLD_LIMIT <= nx && nx <= WORLD_LIMIT {
                    self.x = nx;
                }
                if -WORLD_LIMIT <= ny && ny <= WORLD_LIMIT {
                    self.y = ny;
                }
            }
        } else if self.is_resizing {
            if let Some((x0, y0, w0, h0)) = self.initial_drag_data {
                let (left, right, top, bottom) = self.resize_handle.sides();
                let (nx, nw) = resize_axis_exec(left, right, self.x, self.width, x0, w0, wx);
                let (ny, nh) = resize_axis_exec(top, bottom, self.y, self.height, y0, h0, wy);
                self.x = nx;
                self.width = nw;
                self.y = ny;
                self.height = nh;
            }
        }
    }

    /// Closes the session.
    pub fn end_drag(&mut self)
        ensures
            *final(self) == old(self).ended(),
    {
        self.is_dragging = false;
        self.is_resizing = false;
        self.drag_offset = None;
        self.initial_drag_data = None;
        self.resize_handle = ResizeHandle::Outside;
    }

    /// Records the pointer position and classifies it against this node.
    pub fn update_mouse_position(&mut self, position: Point) -> (r: ResizeHandle)
        requires
            old(self).wf(),
            valid_point(position),
        ensures
            *final(self) == (RgRect { current_mouse_position: Some(position), ..*old(self) }),
            r == old(self).handle_at(position),
    {
        self.current_mouse_position = Some(position);
        self.detect_handle_at(position)
    }

    pub fn set_show_handles(&mut self, show: bool)
        ensures
            *final(self) == (RgRect { show_handles: show, ..*old(self) }),
    {
        self.show_handles = show;
    }

    /// The node after the pointer visits each point of `pts` in turn.
    pub open spec fn dragged_along(self, pts: Seq<Point>) -> RgRect
        decreases pts.len(),
    {
        if pts.len() == 0 {
            self
        } else {
            self.dragged(pts[0]).dragged_along(pts.drop_first())
        }
    }
}

/// Whatever path the pointer takes, a node at least `MIN_SIZE` wide and high
/// stays at least that wide and high.
pub proof fn lemma_resize_floor(n: RgRect, pts: Seq<Point>)
    requires
        n.width >= MIN_SIZE,
        n.height >= MIN_SIZE,
    ensures
        n.dragged_along(pts).width >= MIN_SIZE,
        n.dragged_along(pts).height >= MIN_SIZE,
    decreases pts.len(),
{
    if pts.len() > 0 {
        let m = n.dragged(pts[0]);
        assert(m.width >= MIN_SIZE && m.height >= MIN_SIZE);
        lemma_resize_floor(m, pts.drop_first());
    }
}

/// On a selected node with its handles shown, the screen position of the
/// top-left corner classifies as the top-left grip.
pub proof fn lemma_corner_is_top_left(n: RgRect)
    requires
        n.wf(),
        n.selected,
        n.show_handles,
    ensures
        n.handle_at(Point { x: n.screen_x() as i64, y: n.screen_y() as i64 })
            == ResizeHandle::TopLeft,
{
    lemma_scaled_bound(n.x as int, n.zoom as int);
    lemma_scaled_bound(n.y as int, n.zoom as int);
}

} // verus!
