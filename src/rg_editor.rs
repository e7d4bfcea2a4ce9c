//! The canvas controller: the ordered node collection (its order is the
//! z-order, last on top), selection, marquee, sessions and auto-fit.
use vstd::prelude::*;
use crate::rg_rect::{valid_point, Point, ResizeHandle, RgRect};
use crate::viewport::{
    fit_pan, fit_zoom, floor_div, in_world, lemma_div_magnitude, lemma_fit_zoom_bounded, lemma_scaled_bound,
    valid_pan, valid_zoom, MAX_ZOOM, MIN_ZOOM, SCREEN_LIMIT, WORLD_LIMIT, ZOOM_UNIT,
};

verus! {

/// Placement of the canvas in the window: its origin and size, in milli-pixels.
#[derive(Clone, Copy, Debug, PartialEq, Eq, Structural)]
pub struct Bounds {
    pub origin: Point,
    pub width: i64,
    pub height: i64,
}

impl Bounds {
    pub open spec fn valid(&self) -> bool {
        &&& -SCREEN_LIMIT <= self.origin.x <= SCREEN_LIMIT
        &&& -SCREEN_LIMIT <= self.origin.y <= SCREEN_LIMIT
        &&& 0 <= self.width <= SCREEN_LIMIT
        &&& 0 <= self.height <= SCREEN_LIMIT
    }
}

/// A pointer position in the window that the editor accepts.
pub open spec fn valid_window_point(p: Point) -> bool {
    -SCREEN_LIMIT <= p.x <= SCREEN_LIMIT && -SCREEN_LIMIT <= p.y <= SCREEN_LIMIT
}

/// Indices, topmost first, of the nodes among the first `k` that `p` hits.
pub open spec fn hit_list(nodes: Seq<RgRect>, p: Point, k: int) -> Seq<usize>
    decreases k,
{
    if k <= 0 {
        seq![]
    } else if nodes[k - 1].handle_at(p) != ResizeHandle::Outside {
        seq![(k - 1) as usize] + hit_list(nodes, p, k - 1)
    } else {
        hit_list(nodes, p, k - 1)
    }
}

/// Indices, in collection order, of the selected nodes among the first `k`.
pub open spec fn selected_list(nodes: Seq<RgRect>, k: int) -> Seq<usize>
    decreases k,
{
    if k <= 0 {
        seq![]
    } else if nodes[k - 1].selected {
        selected_list(nodes, k - 1).push((k - 1) as usize)
    } else {
        selected_list(nodes, k - 1)
    }
}

pub open spec fn selected_count(nodes: Seq<RgRect>) -> int {
    selected_list(nodes, nodes.len() as int).len() as int
}

/// First index from `i` on (collection order) of a selected node listed in `hits`.
pub open spec fn first_selected_in(nodes: Seq<RgRect>, hits: Seq<usize>, i: int) -> Option<usize>
    decreases nodes.len() - i,
{
    if i < 0 || i >= nodes.len() {
        None
    } else if nodes[i].selected && hits.contains(i as usize) {
        Some(i as usize)
    } else {
        first_selected_in(nodes, hits, i + 1)
    }
}

/// Position of `v` in `s` from `j` on, or `s.len()` when absent.
pub open spec fn index_in(s: Seq<usize>, v: usize, j: int) -> int
    decreases s.len() - j,
{
    if j < 0 || j >= s.len() {
        s.len() as int
    } else if s[j] == v {
        j
    } else {
        index_in(s, v, j + 1)
    }
}

/// The node a click at `p` chooses: nothing when nothing is hit; else the hit
/// just below the first selected hit (wrapping to the top); else the top hit.
pub open spec fn smart_pick(nodes: Seq<RgRect>, p: Point) -> Option<usize> {
    let h = hit_list(nodes, p, nodes.len() as int);
    if h.len() == 0 {
        None
    } else {
        match first_selected_in(nodes, h, 0) {
            Some(s) => Some(h[(index_in(h, s, 0) + 1) % (h.len() as int)]),
            None => Some(h[0]),
        }
    }
}

/// First index from `i` on (collection order) of a node that `p` hits on a grip.
pub open spec fn first_grip_hit(nodes: Seq<RgRect>, p: Point, i: int) -> Option<usize>
    decreases nodes.len() - i,
{
    if i < 0 || i >= nodes.len() {
        None
    } else if nodes[i].handle_at(p).is_grip() {
        Some(i as usize)
    } else {
        first_grip_hit(nodes, p, i + 1)
    }
}

pub open spec fn unselected_of(s: Seq<RgRect>) -> Seq<RgRect>
    decreases s.len(),
{
    if s.len() == 0 {
        seq![]
    } else if !s.last().selected {
        unselected_of(s.drop_last()).push(s.last())
    } else {
        unselected_of(s.drop_last())
    }
}

pub open spec fn selected_of(s: Seq<RgRect>) -> Seq<RgRect>
    decreases s.len(),
{
    if s.len() == 0 {
        seq![]
    } else if s.last().selected {
        selected_of(s.drop_last()).push(s.last())
    } else {
        selected_of(s.drop_last())
    }
}

/// The collection with its selected nodes moved to the end, each part in its
/// former order.
pub open spec fn promoted(s: Seq<RgRect>) -> Seq<RgRect> {
    unselected_of(s) + selected_of(s)
}

/// Handles shown on each selected node exactly when at most one is selected.
pub open spec fn handles_shown(s: Seq<RgRect>) -> Seq<RgRect> {
    let single = selected_count(s) <= 1;
    s.map_values(
        |n: RgRect|
            if n.selected {
                RgRect { show_handles: single, ..n }
            } else {
                n
            },
    )
}

/// Every node unselected, with handles shown.
pub open spec fn cleared(s: Seq<RgRect>) -> Seq<RgRect> {
    s.map_values(|n: RgRect| RgRect { selected: false, show_handles: true, ..n })
}

/// Node `i` alone selected.
pub open spec fn only_selected(s: Seq<RgRect>, i: int) -> Seq<RgRect> {
    Seq::new(s.len(), |k: int| RgRect { selected: k == i, ..s[k] })
}

/// Node `i` with its selection flipped.
pub open spec fn toggled(s: Seq<RgRect>, i: int) -> Seq<RgRect> {
    s.update(i, RgRect { selected: !s[i].selected, ..s[i] })
}

/// Strict overlap of `n`'s screen rectangle with the rectangle spanned by `a` and `b`.
pub open spec fn in_marquee(n: RgRect, a: Point, b: Point) -> bool {
    let left = if a.x <= b.x { a.x } else { b.x };
    let right = if a.x <= b.x { b.x } else { a.x };
    let top = if a.y <= b.y { a.y } else { b.y };
    let bottom = if a.y <= b.y { b.y } else { a.y };
    &&& n.screen_x() < right
    &&& n.screen_x() + n.screen_w() > left
    &&& n.screen_y() < bottom
    &&& n.screen_y() + n.screen_h() > top
}

/// Each node selected exactly when it overlaps the marquee from `a` to `b`.
pub open spec fn marquee_selected(s: Seq<RgRect>, a: Point, b: Point) -> Seq<RgRect> {
    s.map_values(|n: RgRect| RgRect { selected: in_marquee(n, a, b), ..n })
}

/// Each selected node with a move session begun at `p`.
pub open spec fn moves_started(s: Seq<RgRect>, p: Point) -> Seq<RgRect> {
    s.map_values(|n: RgRect| if n.selected { n.started(p, ResizeHandle::Body) } else { n })
}

pub open spec fn all_dragged(s: Seq<RgRect>, p: Point) -> Seq<RgRect> {
    s.map_values(|n: RgRect| n.dragged(p))
}

pub open spec fn all_ended(s: Seq<RgRect>) -> Seq<RgRect> {
    s.map_values(|n: RgRect| n.ended())
}

/// Every node drawn under `zoom` and `pan`.
pub open spec fn synced(s: Seq<RgRect>, zoom: i64, pan: (i64, i64)) -> Seq<RgRect> {
    s.map_values(|n: RgRect| RgRect { zoom: zoom, pan: pan, ..n })
}

/// Position of `p` relative to the canvas origin `o`.
pub open spec fn relative(p: Point, o: Point) -> Point {
    Point { x: (p.x - o.x) as i64, y: (p.y - o.y) as i64 }
}

/// Canvas editor state.
pub struct RgEditor {
    pub bounds: Bounds,
    /// The nodes; their order is the z-order, last on top.
    pub nodes: Vec<RgRect>,
    /// Zoom in thousandths.
    pub zoom: i64,
    /// Viewport size (milli-pixels) that the view was last fitted to.
    pub base_size: (i64, i64),
    /// Pan (milli-pixels).
    pub pan: (i64, i64),
    pub is_selecting: bool,
    /// The region on which the open drag began, while one is open.
    pub drag_state: Option<ResizeHandle>,
    /// Marquee corners while a marquee is open.
    pub selection_rect: Option<(Point, Point)>,
    pub click_start_position: Option<Point>,
    /// Content extent `(min_x, min_y, max_x, max_y)` in world units, used by auto-fit.
    pub content_bounds: (i64, i64, i64, i64),
    pub view_initialized: bool,
    pub is_updating_bounds: bool,
    /// Once set, viewport changes no longer refit the view.
    pub user_zoomed: bool,
}

pub open spec fn nodes_ok(s: Seq<RgRect>, zoom: i64, pan: (i64, i64)) -> bool {
    forall|k: int| #![trigger s[k]] 0 <= k < s.len() ==> s[k].wf() && s[k].zoom == zoom && s[k].pan == pan
}

pub open spec fn point_opt_ok(p: Option<Point>) -> bool {
    match p {
        Some(q) => valid_point(q),
        None => true,
    }
}

pub open spec fn rect_opt_ok(r: Option<(Point, Point)>) -> bool {
    match r {
        Some((a, b)) => valid_point(a) && valid_point(b),
        None => true,
    }
}

impl RgEditor {
    pub open spec fn wf(&self) -> bool {
        &&& self.bounds.valid()
        &&& valid_zoom(self.zoom as int)
        &&& valid_pan(self.pan)
        &&& nodes_ok(self.nodes@, self.zoom, self.pan)
        &&& in_world(self.content_bounds.0 as int)
        &&& in_world(self.content_bounds.1 as int)
        &&& in_world(self.content_bounds.2 as int)
        &&& in_world(self.content_bounds.3 as int)
        &&& rect_opt_ok(self.selection_rect)
        &&& point_opt_ok(self.click_start_position)
        &&& !self.is_updating_bounds
    }
}

fn contains_index(h: &Vec<usize>, v: usize) -> (r: bool)
    ensures
        r == h@.contains(v),
{
    let mut j: usize = 0;
    while j < h.len()
        invariant
            0 <= j <= h.len(),
            forall|k: int| 0 <= k < j ==> h@[k] != v,
        decreases h.len() - j,
    {
        if h[j] == v {
            return true;
        }
        j += 1;
    }
    false
}

/// Position of `v` in `h`, which holds it.
fn position_in(h: &Vec<usize>, v: usize) -> (r: usize)
    requires
        h@.contains(v),
    ensures
        r as int == index_in(h@, v, 0),
        r < h.len(),
        h@[r as int] == v,
{
    let mut j: usize = 0;
    while j < h.len()
        invariant
            0 <= j <= h.len(),
            h@.contains(v),
            forall|k: int| 0 <= k < j ==> h@[k] != v,
            index_in(h@, v, 0) == index_in(h@, v, j as int),
        decreases h.len() - j,
    {
        if h[j] == v {
            return j;
        }
        j += 1;
    }
    proof {
        let k = choose|k: int| 0 <= k < h@.len() && h@[k] == v;
        assert(h@[k] != v);
    }
    0
}

impl RgEditor {
    /// Indices, in collection order, of the selected nodes.
    pub fn get_selected_nodes(&self) -> (r: Vec<usize>)
        ensures
            r@ == selected_list(self.nodes@, self.nodes@.len() as int),
    {
        let mut out: Vec<usize> = Vec::new();
        let mut i: usize = 0;
        while i < self.nodes.len()
            invariant
                0 <= i <= self.nodes.len(),
                out@ == selected_list(self.nodes@, i as int),
            decreases self.nodes.len() - i,
        {
            if self.nodes[i].selected {
                out.push(i);
            }
            i += 1;
        }
        out
    }

    /// Whether node `i` overlaps the marquee spanned by `rect`.
    pub fn is_node_in_selection_rect(&self, i: usize, rect: (Point, Point)) -> (r: bool)
        requires
            self.wf(),
            i < self.nodes.len(),
            valid_point(rect.0),
            valid_point(rect.1),
        ensures
            r == in_marquee(self.nodes@[i as int], rect.0, rect.1),
    {
        proof {
            assert(self.nodes@[i as int].wf());
        }
        node_in_rect(&self.nodes[i], rect.0, rect.1)
    }

    /// Indices, topmost first, of the nodes that `position` hits (grip, band or body).
    pub fn get_nodes_at_position_with_edges(&self, position: Point) -> (r: Vec<usize>)
        requires
            self.wf(),
            valid_point(position),
        ensures
            r@ == hit_list(self.nodes@, position, self.nodes@.len() as int),
    {
        let mut out: Vec<usize> = Vec::new();
        let mut i: usize = self.nodes.len();
        while i > 0
            invariant
                0 <= i <= self.nodes.len(),
                self.wf(),
                valid_point(position),
                out@ + hit_list(self.nodes@, position, i as int) == hit_list(
                    self.nodes@,
                    position,
                    self.nodes@.len() as int,
                ),
            decreases i,
        {
            i -= 1;
            let hit = self.nodes[i].detect_handle_at(position) != ResizeHandle::Outside;
            proof {
                assert(self.nodes@[i as int].wf());
            }
            if hit {
                proof {
                    assert(out@.push(i) + hit_list(self.nodes@, position, i as int) == out@ + (seq![i]
                        + hit_list(self.nodes@, position, i as int)));
                }
                out.push(i);
            }
        }
        proof {
            assert(out@ + hit_list(self.nodes@, position, 0) == out@);
        }
        out
    }

    /// The node that a click at `position` chooses (see `smart_pick`).
    pub fn smart_select_nodes(&self, position: Point) -> (r: Option<usize>)
        requires
            self.wf(),
            valid_point(position),
        ensures
            r == smart_pick(self.nodes@, position),
            r matches Some(i) ==> i < self.nodes.len(),
    {
        let hits = self.get_nodes_at_position_with_edges(position);
        proof {
            lemma_hit_list_bounded(self.nodes@, position, self.nodes@.len() as int);
        }
        if hits.len() == 0 {
            return None;
        }
        let mut i: usize = 0;
        while i < self.nodes.len()
            invariant
                0 <= i <= self.nodes.len(),
                hits@ == hit_list(self.nodes@, position, self.nodes@.len() as int),
                hits@.len() > 0,
                first_selected_in(self.nodes@, hits@, 0) == first_selected_in(self.nodes@, hits@, i as int),
                forall|k: int| 0 <= k < hits@.len() ==> hits@[k] < self.nodes@.len(),
            decreases self.nodes.len() - i,
        {
            if self.nodes[i].selected && contains_index(&hits, i) {
                let j = position_in(&hits, i);
                let next = (j + 1) % hits.len();
                return Some(hits[next]);
            }
            i += 1;
        }
        Some(hits[0])
    }
}

/// Every index in a hit list names a node.
pub proof fn lemma_hit_list_bounded(nodes: Seq<RgRect>, p: Point, k: int)
    requires
        k <= nodes.len(),
    ensures
        forall|j: int| 0 <= j < hit_list(nodes, p, k).len() ==> 0 <= #[trigger] hit_list(nodes, p, k)[j] < k,
    decreases k,
{
    if k > 0 {
        lemma_hit_list_bounded(nodes, p, k - 1);
        let rest = hit_list(nodes, p, k - 1);
        if nodes[k - 1].handle_at(p) != ResizeHandle::Outside {
            let whole = seq![(k - 1) as usize] + rest;
            assert forall|j: int| 0 < j < whole.len() implies whole[j] == rest[j - 1] by {}
        }
    }
}

/// What an editor holds, with the node collection as a sequence.
pub ghost struct EditorState {
    pub bounds: Bounds,
    pub nodes: Seq<RgRect>,
    pub zoom: i64,
    pub base_size: (i64, i64),
    pub pan: (i64, i64),
    pub is_selecting: bool,
    pub drag_state: Option<ResizeHandle>,
    pub selection_rect: Option<(Point, Point)>,
    pub click_start_position: Option<Point>,
    pub content_bounds: (i64, i64, i64, i64),
    pub view_initialized: bool,
    pub is_updating_bounds: bool,
    pub user_zoomed: bool,
}

impl View for RgEditor {
    type V = EditorState;

    open spec fn view(&self) -> EditorState {
        EditorState {
            bounds: self.bounds,
            nodes: self.nodes@,
            zoom: self.zoom,
            base_size: self.base_size,
            pan: self.pan,
            is_selecting: self.is_selecting,
            drag_state: self.drag_state,
            selection_rect: self.selection_rect,
            click_start_position: self.click_start_position,
            content_bounds: self.content_bounds,
            view_initialized: self.view_initialized,
            is_updating_bounds: self.is_updating_bounds,
            user_zoomed: self.user_zoomed,
        }
    }
}

/// `t` holds, place for place, nodes drawn as in `s`, well formed where `s`'s are.
pub open spec fn keeps(s: Seq<RgRect>, t: Seq<RgRect>) -> bool {
    &&& t.len() == s.len()
    &&& forall|k: int|
        #![trigger t[k]]
        0 <= k < s.len() ==> (s[k].wf() ==> t[k].wf()) && t[k].zoom == s[k].zoom && t[k].pan
            == s[k].pan
}

proof fn lemma_keeps(s: Seq<RgRect>, t: Seq<RgRect>, zoom: i64, pan: (i64, i64))
    requires
        nodes_ok(s, zoom, pan),
        keeps(s, t),
    ensures
        nodes_ok(t, zoom, pan),
{
    assert forall|k: int| 0 <= k < t.len() implies #[trigger] t[k].wf() && t[k].zoom == zoom
        && t[k].pan == pan by {
        assert(s[k].wf());
    }
}

fn clear_flags(nodes: &mut Vec<RgRect>)
    ensures
        keeps(old(nodes)@, final(nodes)@),
        final(nodes)@ == cleared(old(nodes)@),
{
    let ghost orig = nodes@;
    let mut i: usize = 0;
    while i < nodes.len()
        invariant
            0 <= i <= nodes.len(),
            nodes@.len() == orig.len(),
            forall|k: int| 0 <= k < i ==> nodes@[k] == (RgRect { selected: false, show_handles: true, ..orig[k] }),
            forall|k: int| i <= k < orig.len() ==> nodes@[k] == orig[k],
        decreases nodes.len() - i,
    {
        let mut n = nodes[i];
        n.show_handles = true;
        n.selected = false;
        nodes.set(i, n);
        i += 1;
    }
    assert(nodes@ =~= cleared(orig));
}

fn set_selected_handles(nodes: &mut Vec<RgRect>, single: bool)
    ensures
        keeps(old(nodes)@, final(nodes)@),
        final(nodes)@ == old(nodes)@.map_values(
            |n: RgRect|
                if n.selected {
                    RgRect { show_handles: single, ..n }
                } else {
                    n
                },
        ),
{
    let ghost orig = nodes@;
    let mut i: usize = 0;
    while i < nodes.len()
        invariant
            0 <= i <= nodes.len(),
            nodes@.len() == orig.len(),
            forall|k: int|
                0 <= k < i ==> nodes@[k] == (if orig[k].selected {
                    RgRect { show_handles: single, ..orig[k] }
                } else {
                    orig[k]
                }),
            forall|k: int| i <= k < orig.len() ==> nodes@[k] == orig[k],
        decreases nodes.len() - i,
    {
        let mut n = nodes[i];
        if n.selected {
            n.show_handles = single;
            nodes.set(i, n);
        }
        i += 1;
    }
    assert(nodes@ =~= orig.map_values(
        |n: RgRect|
            if n.selected {
                RgRect { show_handles: single, ..n }
            } else {
                n
            },
    ));
}

fn select_only(nodes: &mut Vec<RgRect>, i: usize)
    ensures
        keeps(old(nodes)@, final(nodes)@),
        final(nodes)@ == only_selected(old(nodes)@, i as int),
{
    let ghost orig = nodes@;
    let mut j: usize = 0;
    while j < nodes.len()
        invariant
            0 <= j <= nodes.len(),
            nodes@.len() == orig.len(),
            forall|k: int| 0 <= k < j ==> nodes@[k] == (RgRect { selected: k == i, ..orig[k] }),
            forall|k: int| j <= k < orig.len() ==> nodes@[k] == orig[k],
        decreases nodes.len() - j,
    {
        let mut n = nodes[j];
        n.selected = j == i;
        nodes.set(j, n);
        j += 1;
    }
    assert(nodes@ =~= only_selected(orig, i as int));
}

fn promote_selected(nodes: &Vec<RgRect>) -> (r: Vec<RgRect>)
    ensures
        r@ == promoted(nodes@),
{
    let mut out: Vec<RgRect> = Vec::new();
    let mut i: usize = 0;
    while i < nodes.len()
        invariant
            0 <= i <= nodes.len(),
            out@ == unselected_of(nodes@.take(i as int)),
        decreases nodes.len() - i,
    {
        proof {
            assert(nodes@.take(i + 1).drop_last() =~= nodes@.take(i as int));
        }
        if !nodes[i].selected {
            out.push(nodes[i]);
        }
        i += 1;
    }
    assert(nodes@.take(nodes@.len() as int) =~= nodes@);
    let mut i: usize = 0;
    while i < nodes.len()
        invariant
            0 <= i <= nodes.len(),
            out@ == unselected_of(nodes@) + selected_of(nodes@.take(i as int)),
        decreases nodes.len() - i,
    {
        proof {
            assert(nodes@.take(i + 1).drop_last() =~= nodes@.take(i as int));
        }
        if nodes[i].selected {
            out.push(nodes[i]);
            proof {
                assert(out@ =~= unselected_of(nodes@) + selected_of(nodes@.take(i + 1)));
            }
        }
        i += 1;
    }
    out
}

/// The parts of a promotion hold between them every node once.
pub proof fn lemma_parts_keep(s: Seq<RgRect>, zoom: i64, pan: (i64, i64))
    requires
        nodes_ok(s, zoom, pan),
    ensures
        nodes_ok(unselected_of(s), zoom, pan),
        nodes_ok(selected_of(s), zoom, pan),
        unselected_of(s).len() + selected_of(s).len() == s.len(),
    decreases s.len(),
{
    if s.len() > 0 {
        let t = s.drop_last();
        assert(nodes_ok(t, zoom, pan)) by {
            assert forall|k: int| 0 <= k < t.len() implies #[trigger] t[k].wf() && t[k].zoom == zoom && t[k].pan == pan by {
                assert(t[k] == s[k]);
            }
        }
        lemma_parts_keep(t, zoom, pan);
        assert(s[s.len() - 1].wf());
    }
}

pub proof fn lemma_promoted_keeps(s: Seq<RgRect>, zoom: i64, pan: (i64, i64))
    requires
        nodes_ok(s, zoom, pan),
    ensures
        nodes_ok(promoted(s), zoom, pan),
        promoted(s).len() == s.len(),
{
    lemma_parts_keep(s, zoom, pan);
    let u = unselected_of(s);
    let v = selected_of(s);
    assert forall|k: int| 0 <= k < promoted(s).len() implies #[trigger] promoted(s)[k].wf()
        && promoted(s)[k].zoom == zoom && promoted(s)[k].pan == pan by {
        if k < u.len() {
            assert(promoted(s)[k] == u[k]);
        } else {
            assert(promoted(s)[k] == v[k - u.len()]);
        }
    }
}

impl EditorState {
    /// Left button pressed at window position `position`.
    pub open spec fn left_down(self, position: Point, shift: bool) -> EditorState {
        let p = relative(position, self.bounds.origin);
        let s = EditorState { click_start_position: Some(p), ..self };
        if shift {
            match smart_pick(self.nodes, p) {
                Some(i) => EditorState {
                    nodes: promoted(handles_shown(toggled(self.nodes, i as int))),
                    ..s
                },
                None => s,
            }
        } else {
            match first_grip_hit(self.nodes, p, 0) {
                Some(i) => {
                    let h = self.nodes[i as int].handle_at(p);
                    EditorState {
                        nodes: self.nodes.update(i as int, self.nodes[i as int].started(p, h)),
                        drag_state: Some(h),
                        ..s
                    }
                },
                None => match smart_pick(self.nodes, p) {
                    Some(i) => {
                        let chosen = if self.nodes[i as int].selected {
                            self.nodes
                        } else {
                            only_selected(self.nodes, i as int)
                        };
                        EditorState { nodes: handles_shown(promoted(chosen)), ..s }
                    },
                    None => EditorState {
                        is_selecting: true,
                        selection_rect: Some((p, p)),
                        nodes: cleared(self.nodes),
                        ..s
                    },
                },
            }
        }
    }

    /// Left button released.
    pub open spec fn left_up(self) -> EditorState {
        let s1 = if self.is_selecting {
            EditorState {
                is_selecting: false,
                selection_rect: None,
                nodes: handles_shown(self.nodes),
                ..self
            }
        } else {
            self
        };
        let s2 = if s1.drag_state is Some {
            EditorState { nodes: all_ended(s1.nodes), drag_state: None, ..s1 }
        } else {
            s1
        };
        EditorState { click_start_position: None, ..s2 }
    }

    /// Right button pressed anywhere.
    pub open spec fn right_down(self) -> EditorState {
        EditorState { nodes: cleared(self.nodes), ..self }
    }

    /// Pointer moved to window position `position`.
    pub open spec fn moved(self, position: Point) -> EditorState {
        let p = relative(position, self.bounds.origin);
        if self.is_selecting {
            match self.selection_rect {
                Some((a, _)) => EditorState {
                    selection_rect: Some((a, p)),
                    nodes: marquee_selected(self.nodes, a, p),
                    ..self
                },
                None => self,
            }
        } else if self.click_start_position is Some && self.drag_state is None {
            if selected_count(self.nodes) > 0 {
                EditorState {
                    nodes: moves_started(self.nodes, p),
                    drag_state: Some(ResizeHandle::Body),
                    ..self
                }
            } else {
                self
            }
        } else if self.drag_state is Some {
            EditorState { nodes: all_dragged(self.nodes, p), ..self }
        } else {
            self
        }
    }

    /// The viewport and the content both have positive extent, so the view can be fitted.
    pub open spec fn fit_applies(self) -> bool {
        let (x0, y0, x1, y1) = self.content_bounds;
        &&& self.base_size.0 > 0 && self.base_size.1 > 0
        &&& x1 - x0 > 0 && y1 - y0 > 0
    }

    /// Zoom that fits the content into the viewport.
    pub open spec fn fitted_zoom(self) -> i64 {
        let (x0, y0, x1, y1) = self.content_bounds;
        fit_zoom(self.base_size.0 as int, self.base_size.1 as int, x1 - x0, y1 - y0) as i64
    }

    /// Pan that centers the content in the viewport under `fitted_zoom`.
    pub open spec fn fitted_pan(self) -> (i64, i64) {
        let (x0, y0, x1, y1) = self.content_bounds;
        let z = self.fitted_zoom() as int;
        (
            fit_pan(self.base_size.0 as int, x0 as int, x1 as int, z) as i64,
            fit_pan(self.base_size.1 as int, y0 as int, y1 as int, z) as i64,
        )
    }

    /// The view fitted to the content, where it can be.
    pub open spec fn refitted(self) -> EditorState {
        if self.fit_applies() {
            EditorState { zoom: self.fitted_zoom(), pan: self.fitted_pan(), ..self }
        } else {
            self
        }
    }

    /// The canvas placement changed to `nb`. A change of size records the new
    /// viewport size, refits the view to the content unless the user has
    /// zoomed, and draws every node under the resulting view.
    pub open spec fn bounds_changed(self, nb: Bounds) -> EditorState {
        if nb.width == self.bounds.width && nb.height == self.bounds.height {
            EditorState { bounds: nb, ..self }
        } else {
            let s1 = EditorState {
                bounds: nb,
                base_size: (nb.width, nb.height),
                view_initialized: true,
                ..self
            };
            let s2 = if !self.view_initialized || !self.user_zoomed {
                s1.refitted()
            } else {
                s1
            };
            EditorState { nodes: synced(s2.nodes, s2.zoom, s2.pan), ..s2 }
        }
    }
}

fn sync_all(nodes: &mut Vec<RgRect>, zoom: i64, pan: (i64, i64))
    requires
        valid_zoom(zoom as int),
        valid_pan(pan),
        forall|k: int| 0 <= k < old(nodes)@.len() ==> #[trigger] old(nodes)@[k].wf(),
    ensures
        final(nodes)@ == synced(old(nodes)@, zoom, pan),
        nodes_ok(final(nodes)@, zoom, pan),
{
    let ghost orig = nodes@;
    let mut i: usize = 0;
    while i < nodes.len()
        invariant
            0 <= i <= nodes.len(),
            nodes@.len() == orig.len(),
            valid_zoom(zoom as int),
            valid_pan(pan),
            forall|k: int| 0 <= k < orig.len() ==> #[trigger] orig[k].wf(),
            forall|k: int| 0 <= k < i ==> nodes@[k] == (RgRect { zoom: zoom, pan: pan, ..orig[k] }),
            forall|k: int| i <= k < orig.len() ==> nodes@[k] == orig[k],
        decreases nodes.len() - i,
    {
        let mut n = nodes[i];
        n.zoom = zoom;
        n.pan = pan;
        nodes.set(i, n);
        i += 1;
    }
    assert(nodes@ =~= synced(orig, zoom, pan));
    assert forall|k: int| 0 <= k < nodes@.len() implies #[trigger] nodes@[k].wf() && nodes@[k].zoom
        == zoom && nodes@[k].pan == pan by {
        assert(orig[k].wf());
    }
}

impl RgEditor {
    fn bring_selected_nodes_to_front(&mut self)
        requires
            old(self).wf(),
        ensures
            final(self)@ == (EditorState { nodes: promoted(old(self)@.nodes), ..old(self)@ }),
            final(self).wf(),
    {
        proof {
            lemma_promoted_keeps(self.nodes@, self.zoom, self.pan);
        }
        self.nodes = promote_selected(&self.nodes);
    }

    fn show_select_handles(&mut self)
        requires
            old(self).wf(),
        ensures
            final(self)@ == (EditorState { nodes: handles_shown(old(self)@.nodes), ..old(self)@ }),
            final(self).wf(),
    {
        let single = self.get_selected_nodes().len() <= 1;
        set_selected_handles(&mut self.nodes, single);
        assert(self.nodes@ =~= handles_shown(old(self).nodes@));
        proof {
            lemma_keeps(old(self).nodes@, self.nodes@, self.zoom, self.pan);
        }
    }

    fn clear_all_select(&mut self)
        requires
            old(self).wf(),
        ensures
            final(self)@ == (EditorState { nodes: cleared(old(self)@.nodes), ..old(self)@ }),
            final(self).wf(),
    {
        clear_flags(&mut self.nodes);
        proof {
            lemma_keeps(old(self).nodes@, self.nodes@, self.zoom, self.pan);
        }
    }

    fn toggle_node_selection(&mut self, i: usize)
        requires
            old(self).wf(),
            i < old(self).nodes.len(),
        ensures
            final(self)@ == (EditorState { nodes: toggled(old(self)@.nodes, i as int), ..old(self)@ }),
            final(self).wf(),
    {
        let mut n = self.nodes[i];
        n.selected = !n.selected;
        self.nodes.set(i, n);
        proof {
            lemma_keeps(old(self).nodes@, self.nodes@, self.zoom, self.pan);
        }
    }

    /// Right button pressed: every node is unselected; no session starts.
    pub fn on_mouse_right_down(&mut self)
        requires
            old(self).wf(),
        ensures
            final(self)@ == old(self)@.right_down(),
            final(self).wf(),
    {
        self.clear_all_select();
    }
}

fn end_all(nodes: &mut Vec<RgRect>)
    ensures
        keeps(old(nodes)@, final(nodes)@),
        final(nodes)@ == all_ended(old(nodes)@),
{
    let ghost orig = nodes@;
    let mut i: usize = 0;
    while i < nodes.len()
        invariant
            0 <= i <= nodes.len(),
            nodes@.len() == orig.len(),
            forall|k: int| 0 <= k < i ==> nodes@[k] == orig[k].ended(),
            forall|k: int| i <= k < orig.len() ==> nodes@[k] == orig[k],
        decreases nodes.len() - i,
    {
        let mut n = nodes[i];
        n.end_drag();
        nodes.set(i, n);
        i += 1;
    }
    assert(nodes@ =~= all_ended(orig));
}

fn drag_all(nodes: &mut Vec<RgRect>, p: Point)
    requires
        forall|k: int| 0 <= k < old(nodes)@.len() ==> #[trigger] old(nodes)@[k].wf(),
        valid_point(p),
    ensures
        keeps(old(nodes)@, final(nodes)@),
        forall|k: int| 0 <= k < final(nodes)@.len() ==> #[trigger] final(nodes)@[k].wf(),
        final(nodes)@ == all_dragged(old(nodes)@, p),
{
    let ghost orig = nodes@;
    let mut i: usize = 0;
    while i < nodes.len()
        invariant
            0 <= i <= nodes.len(),
            nodes@.len() == orig.len(),
            valid_point(p),
            forall|k: int| 0 <= k < orig.len() ==> #[trigger] orig[k].wf(),
            forall|k: int| 0 <= k < i ==> nodes@[k] == orig[k].dragged(p),
            forall|k: int| i <= k < orig.len() ==> nodes@[k] == orig[k],
            forall|k: int| 0 <= k < nodes@.len() ==> #[trigger] nodes@[k].wf(),
        decreases nodes.len() - i,
    {
        let mut n = nodes[i];
        assert(orig[i as int].wf());
        n.update_drag(p);
        nodes.set(i, n);
        i += 1;
    }
    assert(nodes@ =~= all_dragged(orig, p));
}

fn start_moves(nodes: &mut Vec<RgRect>, p: Point)
    requires
        forall|k: int| 0 <= k < old(nodes)@.len() ==> #[trigger] old(nodes)@[k].wf(),
        valid_point(p),
    ensures
        keeps(old(nodes)@, final(nodes)@),
        forall|k: int| 0 <= k < final(nodes)@.len() ==> #[trigger] final(nodes)@[k].wf(),
        final(nodes)@ == moves_started(old(nodes)@, p),
{
    let ghost orig = nodes@;
    let mut i: usize = 0;
    while i < nodes.len()
        invariant
            0 <= i <= nodes.len(),
            nodes@.len() == orig.len(),
            valid_point(p),
            forall|k: int| 0 <= k < orig.len() ==> #[trigger] orig[k].wf(),
            forall|k: int|
                0 <= k < i ==> nodes@[k] == (if orig[k].selected {
                    orig[k].started(p, ResizeHandle::Body)
                } else {
                    orig[k]
                }),
            forall|k: int| i <= k < orig.len() ==> nodes@[k] == orig[k],
            forall|k: int| 0 <= k < nodes@.len() ==> #[trigger] nodes@[k].wf(),
        decreases nodes.len() - i,
    {
        let mut n = nodes[i];
        if n.selected {
            assert(orig[i as int].wf());
            n.start_drag(p, ResizeHandle::Body);
            nodes.set(i, n);
        }
        i += 1;
    }
    assert(nodes@ =~= moves_started(orig, p));
}

fn node_in_rect(node: &RgRect, start: Point, end: Point) -> (r: bool)
    requires
        node.wf(),
        valid_point(start),
        valid_point(end),
    ensures
        r == in_marquee(*node, start, end),
{
    let (sx, sy) = node.screen_position();
    let (sw, sh) = node.screen_size();
    proof {
        lemma_scaled_bound(node.x as int, node.zoom as int);
        lemma_scaled_bound(node.y as int, node.zoom as int);
        lemma_scaled_bound(node.width as int, node.zoom as int);
        lemma_scaled_bound(node.height as int, node.zoom as int);
    }
    let left = if start.x <= end.x { start.x } else { end.x };
    let right = if start.x <= end.x { end.x } else { start.x };
    let top = if start.y <= end.y { start.y } else { end.y };
    let bottom = if start.y <= end.y { end.y } else { start.y };
    sx < right && sx + sw > left && sy < bottom && sy + sh > top
}

fn select_in_marquee(nodes: &mut Vec<RgRect>, a: Point, b: Point)
    requires
        forall|k: int| 0 <= k < old(nodes)@.len() ==> #[trigger] old(nodes)@[k].wf(),
        valid_point(a),
        valid_point(b),
    ensures
        keeps(old(nodes)@, final(nodes)@),
        final(nodes)@ == marquee_selected(old(nodes)@, a, b),
{
    let ghost orig = nodes@;
    let mut i: usize = 0;
    while i < nodes.len()
        invariant
            0 <= i <= nodes.len(),
            nodes@.len() == orig.len(),
            valid_point(a),
            valid_point(b),
            forall|k: int| 0 <= k < orig.len() ==> #[trigger] orig[k].wf(),
            forall|k: int|
                0 <= k < i ==> nodes@[k] == (RgRect { selected: in_marquee(orig[k], a, b), ..orig[k] }),
            forall|k: int| i <= k < orig.len() ==> nodes@[k] == orig[k],
        decreases nodes.len() - i,
    {
        let mut n = nodes[i];
        assert(orig[i as int].wf());
        n.selected = node_in_rect(&n, a, b);
        nodes.set(i, n);
        i += 1;
    }
    assert(nodes@ =~= marquee_selected(orig, a, b));
}

impl RgEditor {
    /// First node in collection order that `position` hits on a grip, with the grip.
    fn find_grip_hit(&self, position: Point) -> (r: Option<(usize, ResizeHandle)>)
        requires
            self.wf(),
            valid_point(position),
        ensures
            r is None ==> first_grip_hit(self.nodes@, position, 0) is None,
            r matches Some((i, h)) ==> first_grip_hit(self.nodes@, position, 0) == Some(i) && i
                < self.nodes.len() && h == self.nodes@[i as int].handle_at(position),
    {
        let mut i: usize = 0;
        while i < self.nodes.len()
            invariant
                0 <= i <= self.nodes.len(),
                self.wf(),
                valid_point(position),
                first_grip_hit(self.nodes@, position, 0) == first_grip_hit(self.nodes@, position, i as int),
            decreases self.nodes.len() - i,
        {
            assert(self.nodes@[i as int].wf());
            let h = self.nodes[i].detect_handle_at(position);
            if h != ResizeHandle::Body && h != ResizeHandle::Outside {
                return Some((i, h));
            }
            i += 1;
        }
        None
    }

    /// Left button pressed at window position `position` (see `EditorState::left_down`).
    pub fn on_mouse_left_down(&mut self, position: Point, shift: bool)
        requires
            old(self).wf(),
            valid_window_point(position),
        ensures
            final(self)@ == old(self)@.left_down(position, shift),
            final(self).wf(),
    {
        let p = Point { x: position.x - self.bounds.origin.x, y: position.y - self.bounds.origin.y };
        self.click_start_position = Some(p);
        if shift {
            if let Some(i) = self.smart_select_nodes(p) {
                self.toggle_node_selection(i);
                self.show_select_handles();
                self.bring_selected_nodes_to_front();
            }
            return;
        }
        if let Some((i, h)) = self.find_grip_hit(p) {
            let mut n = self.nodes[i];
            assert(old(self).nodes@[i as int].wf());
            n.start_drag(p, h);
            self.nodes.set(i, n);
            self.drag_state = Some(h);
            proof {
                lemma_keeps(old(self).nodes@, self.nodes@, self.zoom, self.pan);
            }
            return;
        }
        if let Some(i) = self.smart_select_nodes(p) {
            if !self.nodes[i].selected {
                select_only(&mut self.nodes, i);
                proof {
                    lemma_keeps(old(self).nodes@, self.nodes@, self.zoom, self.pan);
                }
            }
            self.bring_selected_nodes_to_front();
            self.show_select_handles();
            return;
        }
        self.is_selecting = true;
        self.selection_rect = Some((p, p));
        self.clear_all_select();
    }

    /// Left button released (see `EditorState::left_up`).
    pub fn on_mouse_left_up(&mut self)
        requires
            old(self).wf(),
        ensures
            final(self)@ == old(self)@.left_up(),
            final(self).wf(),
    {
        if self.is_selecting {
            self.is_selecting = false;
            self.selection_rect = None;
            self.show_select_handles();
        }
        if self.drag_state.is_some() {
            let ghost before = self.nodes@;
            end_all(&mut self.nodes);
            self.drag_state = None;
            proof {
                lemma_keeps(before, self.nodes@, self.zoom, self.pan);
            }
        }
        self.click_start_position = None;
    }

    /// Pointer moved to window position `position` (see `EditorState::moved`).
    pub fn on_mouse_move(&mut self, position: Point)
        requires
            old(self).wf(),
            valid_window_point(position),
        ensures
            final(self)@ == old(self)@.moved(position),
            final(self).wf(),
    {
        let p = Point { x: position.x - self.bounds.origin.x, y: position.y - self.bounds.origin.y };
        assert(forall|k: int| 0 <= k < self.nodes@.len() ==> #[trigger] self.nodes@[k].wf());
        if self.is_selecting {
            if let Some((start, _)) = self.selection_rect {
                self.selection_rect = Some((start, p));
                select_in_marquee(&mut self.nodes, start, p);
                proof {
                    lemma_keeps(old(self).nodes@, self.nodes@, self.zoom, self.pan);
                }
            }
            return;
        }
        if self.click_start_position.is_some() && self.drag_state.is_none() {
            let selected = self.get_selected_nodes();
            if selected.len() > 0 {
                start_moves(&mut self.nodes, p);
                self.drag_state = Some(ResizeHandle::Body);
                proof {
                    lemma_keeps(old(self).nodes@, self.nodes@, self.zoom, self.pan);
                }
            }
            return;
        }
        if self.drag_state.is_some() {
            drag_all(&mut self.nodes, p);
            proof {
                lemma_keeps(old(self).nodes@, self.nodes@, self.zoom, self.pan);
            }
        }
    }
}

impl RgEditor {
    /// An editor over `nodes` (bottom first), at zoom one with no pan, nothing
    /// open, and content bounds `(0, 0, 800, 600)`.
    pub fn new(nodes: Vec<RgRect>) -> (r: Self)
        requires
            forall|k: int| 0 <= k < nodes@.len() ==> #[trigger] nodes@[k].wf(),
        ensures
            r.wf(),
            r@ == (EditorState {
                bounds: Bounds { origin: Point { x: 0, y: 0 }, width: 0, height: 0 },
                nodes: synced(nodes@, ZOOM_UNIT, (0i64, 0i64)),
                zoom: ZOOM_UNIT,
                base_size: (0i64, 0i64),
                pan: (0i64, 0i64),
                is_selecting: false,
                drag_state: None,
                selection_rect: None,
                click_start_position: None,
                content_bounds: (0i64, 0i64, 800i64, 600i64),
                view_initialized: false,
                is_updating_bounds: false,
                user_zoomed: false,
            }),
    {
        let zoom = ZOOM_UNIT;
        let pan: (i64, i64) = (0, 0);
        let mut nodes = nodes;
        sync_all(&mut nodes, zoom, pan);
        RgEditor {
            bounds: Bounds { origin: Point { x: 0, y: 0 }, width: 0, height: 0 },
            nodes,
            zoom,
            base_size: (0, 0),
            pan,
            is_selecting: false,
            drag_state: None,
            selection_rect: None,
            click_start_position: None,
            content_bounds: (0, 0, 800, 600),
            view_initialized: false,
            is_updating_bounds: false,
            user_zoomed: false,
        }
    }

    /// Sets the content extent that auto-fit frames.
    pub fn set_content_bounds(&mut self, min_x: i64, min_y: i64, max_x: i64, max_y: i64)
        requires
            old(self).wf(),
            in_world(min_x as int),
            in_world(min_y as int),
            in_world(max_x as int),
            in_world(max_y as int),
        ensures
            final(self)@ == (EditorState { content_bounds: (min_x, min_y, max_x, max_y), ..old(self)@ }),
            final(self).wf(),
    {
        self.content_bounds = (min_x, min_y, max_x, max_y);
    }

    fn adjust_view_to_fit_content_bounds(&mut self)
        requires
            0 <= old(self).base_size.0 <= SCREEN_LIMIT,
            0 <= old(self).base_size.1 <= SCREEN_LIMIT,
            in_world(old(self).content_bounds.0 as int),
            in_world(old(self).content_bounds.1 as int),
            in_world(old(self).content_bounds.2 as int),
            in_world(old(self).content_bounds.3 as int),
            valid_zoom(old(self).zoom as int),
            valid_pan(old(self).pan),
        ensures
            final(self)@ == old(self)@.refitted(),
            valid_zoom(final(self).zoom as int),
            valid_pan(final(self).pan),
    {
        let (vw, vh) = self.base_size;
        let (x0, y0, x1, y1) = self.content_bounds;
        if vw > 0 && vh > 0 && x1 - x0 > 0 && y1 - y0 > 0 {
            let cw = x1 - x0;
            let ch = y1 - y0;
            let raw = if vw < cw * ZOOM_UNIT || vh < ch * ZOOM_UNIT {
                let scale_x = vw / cw;
                let scale_y = vh / ch;
                if scale_x <= scale_y {
                    scale_x
                } else {
                    scale_y
                }
            } else {
                ZOOM_UNIT
            };
            let z = if raw < MIN_ZOOM {
                MIN_ZOOM
            } else if raw > MAX_ZOOM {
                MAX_ZOOM
            } else {
                raw
            };
            proof {
                lemma_fit_zoom_bounded(vw as int, vh as int, cw as int, ch as int);
                assert(-8_000_000_000_000_000 <= (x0 + x1) * z <= 8_000_000_000_000_000)
                    by (nonlinear_arith)
                    requires
                        -2 * WORLD_LIMIT <= x0 + x1 <= 2 * WORLD_LIMIT,
                        MIN_ZOOM <= z <= MAX_ZOOM,
                ;
                assert(-8_000_000_000_000_000 <= (y0 + y1) * z <= 8_000_000_000_000_000)
                    by (nonlinear_arith)
                    requires
                        -2 * WORLD_LIMIT <= y0 + y1 <= 2 * WORLD_LIMIT,
                        MIN_ZOOM <= z <= MAX_ZOOM,
                ;
                lemma_div_magnitude(vw - (x0 + x1) * z, 2);
                lemma_div_magnitude(vh - (y0 + y1) * z, 2);
            }
            self.zoom = z;
            self.pan = (floor_div(vw - (x0 + x1) * z, 2), floor_div(vh - (y0 + y1) * z, 2));
        }
    }

    fn update_nodes_pan_zoom(&mut self)
        requires
            valid_zoom(old(self).zoom as int),
            valid_pan(old(self).pan),
            forall|k: int| 0 <= k < old(self).nodes@.len() ==> #[trigger] old(self).nodes@[k].wf(),
        ensures
            final(self)@ == (EditorState {
                nodes: synced(old(self)@.nodes, old(self).zoom, old(self).pan),
                ..old(self)@
            }),
            nodes_ok(final(self).nodes@, final(self).zoom, final(self).pan),
    {
        let zoom = self.zoom;
        let pan = self.pan;
        sync_all(&mut self.nodes, zoom, pan);
    }

    fn update_base_size(&mut self, new_bounds: Bounds)
        requires
            old(self).wf(),
            new_bounds.valid(),
        ensures
            final(self)@ == ({
                let s1 = EditorState {
                    base_size: (new_bounds.width, new_bounds.height),
                    view_initialized: true,
                    ..old(self)@
                };
                if !old(self).view_initialized || !old(self).user_zoomed {
                    s1.refitted()
                } else {
                    s1
                }
            }),
            valid_zoom(final(self).zoom as int),
            valid_pan(final(self).pan),
    {
        if self.is_updating_bounds {
            return;
        }
        self.is_updating_bounds = true;
        self.base_size = (new_bounds.width, new_bounds.height);
        if !self.view_initialized || !self.user_zoomed {
            self.adjust_view_to_fit_content_bounds();
            self.view_initialized = true;
        }
        self.is_updating_bounds = false;
    }

    /// The canvas placement changed (see `EditorState::bounds_changed`).
    pub fn on_bounds_changed(&mut self, new_bounds: Bounds)
        requires
            old(self).wf(),
            new_bounds.valid(),
        ensures
            final(self)@ == old(self)@.bounds_changed(new_bounds),
            final(self).wf(),
    {
        let old_bounds = self.bounds;
        self.bounds = new_bounds;
        if old_bounds.width != new_bounds.width || old_bounds.height != new_bounds.height {
            assert(forall|k: int| 0 <= k < self.nodes@.len() ==> #[trigger] self.nodes@[k].wf());
            self.update_base_size(new_bounds);
            self.update_nodes_pan_zoom();
        }
    }
}

proof fn lemma_none_selected(t: Seq<RgRect>)
    requires
        forall|k: int| 0 <= k < t.len() ==> !(#[trigger] t[k]).selected,
    ensures
        selected_of(t) == Seq::<RgRect>::empty(),
        unselected_of(t) == t,
    decreases t.len(),
{
    if t.len() > 0 {
        let d = t.drop_last();
        assert forall|k: int| 0 <= k < d.len() implies !(#[trigger] d[k]).selected by {
            assert(d[k] == t[k]);
        }
        lemma_none_selected(d);
        assert(!t[t.len() - 1].selected);
        assert(d.push(t.last()) =~= t);
    }
}

proof fn lemma_single_selected(t: Seq<RgRect>, i: int)
    requires
        0 <= i < t.len(),
        t[i].selected,
        forall|k: int| 0 <= k < t.len() && k != i ==> !(#[trigger] t[k]).selected,
    ensures
        selected_of(t) == seq![t[i]],
    decreases t.len(),
{
    let d = t.drop_last();
    if i == t.len() - 1 {
        assert forall|k: int| 0 <= k < d.len() implies !(#[trigger] d[k]).selected by {
            assert(d[k] == t[k]);
        }
        lemma_none_selected(d);
        assert(Seq::<RgRect>::empty().push(t[i]) =~= seq![t[i]]);
    } else {
        assert forall|k: int| 0 <= k < d.len() && k != i implies !(#[trigger] d[k]).selected by {
            assert(d[k] == t[k]);
        }
        assert(d[i] == t[i]);
        assert(!t[t.len() - 1].selected);
        lemma_single_selected(d, i);
    }
}

/// A click that selects node `i` alone brings it to the top of the z-order:
/// it becomes the last node, and the order keeps every node once.
pub proof fn lemma_selected_on_top(s: Seq<RgRect>, i: int)
    requires
        0 <= i < s.len(),
    ensures
        promoted(only_selected(s, i)).len() == s.len(),
        promoted(only_selected(s, i)).last() == (RgRect { selected: true, ..s[i] }),
{
    let t = only_selected(s, i);
    lemma_single_selected(t, i);
    lemma_single_len(t);
}

proof fn lemma_single_len(t: Seq<RgRect>)
    ensures
        unselected_of(t).len() + selected_of(t).len() == t.len(),
    decreases t.len(),
{
    if t.len() > 0 {
        lemma_single_len(t.drop_last());
    }
}

/// The topmost node, when hit, heads the hit list, so hit-tests prefer it.
pub proof fn lemma_top_hit_first(t: Seq<RgRect>, p: Point)
    requires
        0 < t.len() <= usize::MAX,
        t.last().handle_at(p) != ResizeHandle::Outside,
    ensures
        hit_list(t, p, t.len() as int)[0] == t.len() - 1,
{
    let k = t.len() as int;
    let rest = hit_list(t, p, k - 1);
    assert(t[k - 1] == t.last());
    assert(hit_list(t, p, k) == seq![(k - 1) as usize] + rest);
    assert((seq![(k - 1) as usize] + rest)[0] == (k - 1) as usize);
}

/// A right-click leaves every node unselected with its session untouched,
/// opens neither a marquee nor a drag, and keeps the z-order.
pub proof fn lemma_right_click_clears(e: EditorState)
    ensures
        e.right_down().nodes.len() == e.nodes.len(),
        forall|k: int|
            0 <= k < e.nodes.len() ==> {
                let n = #[trigger] e.right_down().nodes[k];
                &&& !n.selected
                &&& n.id == e.nodes[k].id
                &&& n.is_dragging == e.nodes[k].is_dragging
                &&& n.is_resizing == e.nodes[k].is_resizing
            },
        e.right_down().drag_state == e.drag_state,
        e.right_down().is_selecting == e.is_selecting,
        e.right_down().selection_rect == e.selection_rect,
{
}

} // verus!
