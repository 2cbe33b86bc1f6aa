use vstd::prelude::*;

use crate::point::Point;
use crate::point_set::PointSet;
use crate::point_set::contains_point;

verus! {

// /////////////////////////////////////////////////////////////////////////
// The opacity oracle
// /////////////////////////////////////////////////////////////////////////

/// If a type is a VisionCheck, it can determine if vision is blocked or not
/// at a given location. It must work for any potential location at all, so
/// out of bounds locations should simply return `true`.
pub trait VisionCheck {
    /// What the check answers at each point, as a predicate that contracts
    /// can speak of. A field-of-view computation is a function of this
    /// predicate, the range and the start alone.
    spec fn spec_blocked(&self, target: Point) -> bool;

    /// Should return if the point specified blocks vision.
    fn blocked(&self, target: Point) -> (b: bool)
        ensures
            b == self.spec_blocked(target),
    ;
}

/// Uses the input list as the locations that do not block vision.
pub struct ClearSet(pub Vec<Point>);

impl VisionCheck for ClearSet {
    open spec fn spec_blocked(&self, target: Point) -> bool {
        !self.0@.contains(target)
    }

    fn blocked(&self, target: Point) -> (b: bool) {
        !contains_point(&self.0, target)
    }
}

/// Uses the input list as the locations that block vision.
pub struct BlockerSet(pub Vec<Point>);

impl VisionCheck for BlockerSet {
    open spec fn spec_blocked(&self, target: Point) -> bool {
        self.0@.contains(target)
    }

    fn blocked(&self, target: Point) -> (b: bool) {
        contains_point(&self.0, target)
    }
}

/// Uses the input list as the locations that do not block vision (ref
/// version).
pub struct RefClearSet<'a>(pub &'a Vec<Point>);

impl<'a> VisionCheck for RefClearSet<'a> {
    open spec fn spec_blocked(&self, target: Point) -> bool {
        !self.0@.contains(target)
    }

    fn blocked(&self, target: Point) -> (b: bool) {
        !contains_point(self.0, target)
    }
}

/// Uses the input list as the locations that block vision (ref version).
pub struct RefBlockerSet<'a>(pub &'a Vec<Point>);

impl<'a> VisionCheck for RefBlockerSet<'a> {
    open spec fn spec_blocked(&self, target: Point) -> bool {
        self.0@.contains(target)
    }

    fn blocked(&self, target: Point) -> (b: bool) {
        contains_point(self.0, target)
    }
}

// /////////////////////////////////////////////////////////////////////////
// Quadrants
// /////////////////////////////////////////////////////////////////////////

/// One of the four cartesian quadrants.
#[derive(Debug, PartialEq, Eq, Structural, Clone, Copy)]
pub enum Quadrant {
    One,
    Two,
    Three,
    Four,
}

impl Quadrant {
    /// The sign that this quadrant applies to the x axis.
    pub open spec fn spec_sign_x(self) -> i32 {
        match self {
            Quadrant::One | Quadrant::Four => 1i32,
            Quadrant::Two | Quadrant::Three => -1i32,
        }
    }

    /// The sign that this quadrant applies to the y axis.
    pub open spec fn spec_sign_y(self) -> i32 {
        match self {
            Quadrant::One | Quadrant::Two => 1i32,
            Quadrant::Three | Quadrant::Four => -1i32,
        }
    }

    pub fn sign_x(self) -> (r: i32)
        ensures
            r == self.spec_sign_x(),
    {
        match self {
            Quadrant::One | Quadrant::Four => 1,
            Quadrant::Two | Quadrant::Three => -1,
        }
    }

    pub fn sign_y(self) -> (r: i32)
        ensures
            r == self.spec_sign_y(),
    {
        match self {
            Quadrant::One | Quadrant::Two => 1,
            Quadrant::Three | Quadrant::Four => -1,
        }
    }
}

// /////////////////////////////////////////////////////////////////////////
// Sight lines
// /////////////////////////////////////////////////////////////////////////

/// One of the two lines of a View: the directed ray from
/// `(x_initial, y_initial)` through `(x_final, y_final)`.
#[derive(Debug, PartialEq, Eq, Structural, Clone, Copy)]
pub struct SightLine {
    pub x_initial: i32,
    pub y_initial: i32,
    pub x_final: i32,
    pub y_final: i32,
}

impl SightLine {
    /// The exact cross-product comparison of this line against a point: the
    /// sign says whether the line passes above (negative), through (zero) or
    /// below (positive) the point.
    pub open spec fn spec_relative_slope(self, p: Point) -> int {
        (self.y_final - self.y_initial) * (self.x_final - p.x) - (self.x_final - self.x_initial)
            * (self.y_final - p.y)
    }

    /// Whether this line and `other` lie on one common line: both of
    /// `other`'s defining points are collinear with this line.
    pub open spec fn spec_is_line_collinear(self, other: SightLine) -> bool {
        &&& self.spec_relative_slope(Point { x: other.x_initial, y: other.y_initial }) == 0
        &&& self.spec_relative_slope(Point { x: other.x_final, y: other.y_final }) == 0
    }

    pub fn new(nxi: i32, nyi: i32, nxf: i32, nyf: i32) -> (l: SightLine)
        ensures
            l == (SightLine { x_initial: nxi, y_initial: nyi, x_final: nxf, y_final: nyf }),
    {
        SightLine { x_initial: nxi, y_initial: nyi, x_final: nxf, y_final: nyf }
    }

    /// The cross product, computed exactly in a wide integer domain so that
    /// no coordinate pair can overflow it.
    pub fn relative_slope(self, p: Point) -> (r: i128)
        ensures
            r == self.spec_relative_slope(p),
    {
        let dy: i64 = self.y_final as i64 - self.y_initial as i64;
        let rx: i64 = self.x_final as i64 - p.x() as i64;
        let dx: i64 = self.x_final as i64 - self.x_initial as i64;
        let ry: i64 = self.y_final as i64 - p.y() as i64;
        proof {
            assert(-0x1_0000_0000_0000_0000 < dy * rx < 0x1_0000_0000_0000_0000) by (nonlinear_arith)
                requires
                    -0x1_0000_0000 < dy < 0x1_0000_0000,
                    -0x1_0000_0000 < rx < 0x1_0000_0000,
            ;
            assert(-0x1_0000_0000_0000_0000 < dx * ry < 0x1_0000_0000_0000_0000) by (nonlinear_arith)
                requires
                    -0x1_0000_0000 < dx < 0x1_0000_0000,
                    -0x1_0000_0000 < ry < 0x1_0000_0000,
            ;
        }
        (dy as i128) * (rx as i128) - (dx as i128) * (ry as i128)
    }

    pub fn is_above(self, p: Point) -> (b: bool)
        ensures
            b == (self.spec_relative_slope(p) < 0),
    {
        self.relative_slope(p) < 0
    }

    pub fn is_above_or_collinear(self, p: Point) -> (b: bool)
        ensures
            b == (self.spec_relative_slope(p) <= 0),
    {
        self.relative_slope(p) <= 0
    }

    pub fn is_below(self, p: Point) -> (b: bool)
        ensures
            b == (self.spec_relative_slope(p) > 0),
    {
        self.relative_slope(p) > 0
    }

    pub fn is_below_or_collinear(self, p: Point) -> (b: bool)
        ensures
            b == (self.spec_relative_slope(p) >= 0),
    {
        self.relative_slope(p) >= 0
    }

    pub fn is_collinear(self, p: Point) -> (b: bool)
        ensures
            b == (self.spec_relative_slope(p) == 0),
    {
        self.relative_slope(p) == 0
    }

    pub fn is_line_collinear(self, other: SightLine) -> (b: bool)
        ensures
            b == self.spec_is_line_collinear(other),
    {
        self.is_collinear(Point::new(other.x_initial, other.y_initial)) && self.is_collinear(
            Point::new(other.x_final, other.y_final),
        )
    }
}

// /////////////////////////////////////////////////////////////////////////
// Bump chains and views
// /////////////////////////////////////////////////////////////////////////

/// One of the locations that has bumped into a View during the View's
/// lifetime. Also links to its "parent", linked list style, so that you can
/// scan all the way back.
#[derive(Debug, PartialEq, Eq)]
pub struct ViewBump {
    pub location: Point,
    pub parent: Box<Option<ViewBump>>,
}

impl ViewBump {
    pub fn new(nloc: Point, nparent: Option<ViewBump>) -> (b: ViewBump)
        ensures
            b.location == nloc,
            *b.parent == nparent,
    {
        ViewBump { location: nloc, parent: Box::new(nparent) }
    }
}

/// The locations held in a bump chain, newest first.
pub open spec fn bump_seq(chain: Option<ViewBump>) -> Seq<Point>
    decreases chain,
{
    match chain {
        None => Seq::empty(),
        Some(b) => seq![b.location] + bump_seq(*b.parent),
    }
}

/// A cone of vision going out from the start location: one active view.
#[derive(Debug, PartialEq, Eq)]
pub struct ActiveView {
    pub shallow_bump: Option<ViewBump>,
    pub shallow_line: SightLine,
    pub steep_bump: Option<ViewBump>,
    pub steep_line: SightLine,
}

/// The mathematical content of a View: its two boundary lines and the bump
/// locations recorded against each, newest first.
pub ghost struct ViewModel {
    pub shallow_line: SightLine,
    pub steep_line: SightLine,
    pub shallow_bumps: Seq<Point>,
    pub steep_bumps: Seq<Point>,
}

impl ActiveView {
    pub open spec fn model(self) -> ViewModel {
        ViewModel {
            shallow_line: self.shallow_line,
            steep_line: self.steep_line,
            shallow_bumps: bump_seq(self.shallow_bump),
            steep_bumps: bump_seq(self.steep_bump),
        }
    }

    pub fn new(n_shallow: SightLine, n_steep: SightLine) -> (v: ActiveView)
        ensures
            v.model() == (ViewModel {
                shallow_line: n_shallow,
                steep_line: n_steep,
                shallow_bumps: Seq::<Point>::empty(),
                steep_bumps: Seq::<Point>::empty(),
            }),
    {
        ActiveView { shallow_line: n_shallow, steep_line: n_steep, shallow_bump: None, steep_bump: None }
    }
}

/// The models of a whole list of active views, in order.
pub open spec fn models(views: Seq<ActiveView>) -> Seq<ViewModel> {
    views.map_values(|v: ActiveView| v.model())
}

proof fn lemma_models_remove(s: Seq<ActiveView>, i: int)
    requires
        0 <= i < s.len(),
    ensures
        models(s.remove(i)) =~= models(s).remove(i),
{
}

proof fn lemma_models_update(s: Seq<ActiveView>, i: int, v: ActiveView)
    requires
        0 <= i < s.len(),
    ensures
        models(s.update(i, v)) =~= models(s).update(i, v.model()),
{
}

proof fn lemma_models_insert(s: Seq<ActiveView>, i: int, v: ActiveView)
    requires
        0 <= i <= s.len(),
    ensures
        models(s.insert(i, v)) =~= models(s).insert(i, v.model()),
{
    assert forall|j: int| 0 <= j < s.len() + 1 implies models(s.insert(i, v))[j] == models(
        s,
    ).insert(i, v.model())[j] by {
        assert(s.insert(i, v)[j] == if j < i {
            s[j]
        } else if j == i {
            v
        } else {
            s[j - 1]
        });
    }
}

/// A verified deep copy of a bump chain. (Verus learns nothing from a derived
/// clone of a linked structure, so the copy is spelled out and proved equal.)
fn copy_chain(chain: &Option<ViewBump>) -> (r: Option<ViewBump>)
    ensures
        r == *chain,
    decreases chain,
{
    match chain {
        None => None,
        Some(b) => Some(
            ViewBump { location: b.location, parent: Box::new(copy_chain(&*b.parent)) },
        ),
    }
}

impl ActiveView {
    /// A deep copy of this view, equal to the original.
    pub fn duplicate(&self) -> (v: ActiveView)
        ensures
            v == *self,
    {
        ActiveView {
            shallow_bump: copy_chain(&self.shallow_bump),
            shallow_line: self.shallow_line,
            steep_bump: copy_chain(&self.steep_bump),
            steep_line: self.steep_line,
        }
    }
}

// /////////////////////////////////////////////////////////////////////////
// Tightening a view's boundary lines
// /////////////////////////////////////////////////////////////////////////

/// After the shallow line's far endpoint has moved, walk the steep-side
/// bumps newest first and, for each one the moved line still passes above,
/// pull the line's near endpoint back to that bump.
pub open spec fn pull_shallow_spec(line: SightLine, bumps: Seq<Point>) -> SightLine
    decreases bumps.len(),
{
    if bumps.len() == 0 {
        line
    } else {
        let l2 = if line.spec_relative_slope(bumps[0]) < 0 {
            SightLine {
                x_initial: bumps[0].x,
                y_initial: bumps[0].y,
                x_final: line.x_final,
                y_final: line.y_final,
            }
        } else {
            line
        };
        pull_shallow_spec(l2, bumps.drop_first())
    }
}

/// The steep-side counterpart of `pull_shallow_spec`: pull the steep line's
/// near endpoint back to every shallow-side bump it still passes below.
pub open spec fn pull_steep_spec(line: SightLine, bumps: Seq<Point>) -> SightLine
    decreases bumps.len(),
{
    if bumps.len() == 0 {
        line
    } else {
        let l2 = if line.spec_relative_slope(bumps[0]) > 0 {
            SightLine {
                x_initial: bumps[0].x,
                y_initial: bumps[0].y,
                x_final: line.x_final,
                y_final: line.y_final,
            }
        } else {
            line
        };
        pull_steep_spec(l2, bumps.drop_first())
    }
}

/// What `add_shallow_bump` does to a view: move the shallow line's far
/// endpoint to `loc`, record `loc` as the newest shallow bump, then re-anchor
/// the line against the steep-side bumps.
pub open spec fn add_shallow_bump_spec(v: ViewModel, loc: Point) -> ViewModel {
    let moved = SightLine {
        x_initial: v.shallow_line.x_initial,
        y_initial: v.shallow_line.y_initial,
        x_final: loc.x,
        y_final: loc.y,
    };
    ViewModel {
        shallow_line: pull_shallow_spec(moved, v.steep_bumps),
        steep_line: v.steep_line,
        shallow_bumps: seq![loc] + v.shallow_bumps,
        steep_bumps: v.steep_bumps,
    }
}

/// What `add_steep_bump` does to a view, mirroring `add_shallow_bump_spec`.
pub open spec fn add_steep_bump_spec(v: ViewModel, loc: Point) -> ViewModel {
    let moved = SightLine {
        x_initial: v.steep_line.x_initial,
        y_initial: v.steep_line.y_initial,
        x_final: loc.x,
        y_final: loc.y,
    };
    ViewModel {
        shallow_line: v.shallow_line,
        steep_line: pull_steep_spec(moved, v.shallow_bumps),
        shallow_bumps: v.shallow_bumps,
        steep_bumps: seq![loc] + v.steep_bumps,
    }
}

fn pull_shallow(line: SightLine, chain: &Option<ViewBump>) -> (r: SightLine)
    ensures
        r == pull_shallow_spec(line, bump_seq(*chain)),
    decreases chain,
{
    match chain {
        None => line,
        Some(b) => {
            let l2 = if line.is_above(b.location) {
                SightLine {
                    x_initial: b.location.x,
                    y_initial: b.location.y,
                    x_final: line.x_final,
                    y_final: line.y_final,
                }
            } else {
                line
            };
            let r = pull_shallow(l2, &*b.parent);
            proof {
                let s = bump_seq(*chain);
                assert(s.drop_first() =~= bump_seq(*b.parent));
            }
            r
        },
    }
}

fn pull_steep(line: SightLine, chain: &Option<ViewBump>) -> (r: SightLine)
    ensures
        r == pull_steep_spec(line, bump_seq(*chain)),
    decreases chain,
{
    match chain {
        None => line,
        Some(b) => {
            let l2 = if line.is_below(b.location) {
                SightLine {
                    x_initial: b.location.x,
                    y_initial: b.location.y,
                    x_final: line.x_final,
                    y_final: line.y_final,
                }
            } else {
                line
            };
            let r = pull_steep(l2, &*b.parent);
            proof {
                let s = bump_seq(*chain);
                assert(s.drop_first() =~= bump_seq(*b.parent));
            }
            r
        },
    }
}

/// Adds a shallow bump to the view specified.
pub fn add_shallow_bump(view: &mut ActiveView, loc: Point)
    ensures
        final(view).model() == add_shallow_bump_spec(old(view).model(), loc),
{
    view.shallow_line.x_final = loc.x();
    view.shallow_line.y_final = loc.y();
    let old_bump = view.shallow_bump.take();
    view.shallow_bump = Some(ViewBump::new(loc, old_bump));
    view.shallow_line = pull_shallow(view.shallow_line, &view.steep_bump);
}

/// Adds a steep bump to the view specified.
pub fn add_steep_bump(view: &mut ActiveView, loc: Point)
    ensures
        final(view).model() == add_steep_bump_spec(old(view).model(), loc),
{
    view.steep_line.x_final = loc.x();
    view.steep_line.y_final = loc.y();
    let old_bump = view.steep_bump.take();
    view.steep_bump = Some(ViewBump::new(loc, old_bump));
    view.steep_line = pull_steep(view.steep_line, &view.shallow_bump);
}

// /////////////////////////////////////////////////////////////////////////
// Degeneracy check
// /////////////////////////////////////////////////////////////////////////

/// What `check_view` does: drop the view at `i` if its two boundary lines
/// have collapsed onto one line that extrudes from the bottom right or upper
/// left corner of the origin cell.
pub open spec fn check_view_spec(views: Seq<ViewModel>, i: int) -> Seq<ViewModel> {
    let shallow_line = views[i].shallow_line;
    let steep_line = views[i].steep_line;
    if shallow_line.spec_is_line_collinear(steep_line) && (shallow_line.spec_relative_slope(
        Point { x: 0, y: 1 },
    ) == 0 || shallow_line.spec_relative_slope(Point { x: 1, y: 0 }) == 0) {
        views.remove(i)
    } else {
        views
    }
}

/// Checks that the specified view is still valid, and removes it from the
/// vector if it is not.
pub fn check_view(active_views: &mut Vec<ActiveView>, view_index: usize)
    requires
        view_index < old(active_views)@.len(),
    ensures
        models(final(active_views)@) == check_view_spec(
            models(old(active_views)@),
            view_index as int,
        ),
{
    let shallow_line = active_views[view_index].shallow_line;
    let steep_line = active_views[view_index].steep_line;
    if shallow_line.is_line_collinear(steep_line) && (shallow_line.is_collinear(Point::new(0, 1))
        || shallow_line.is_collinear(Point::new(1, 0))) {
        active_views.remove(view_index);
        proof {
            lemma_models_remove(old(active_views)@, view_index as int);
        }
    }
}

/// Adds then checks.
pub fn add_shallow_and_check(active_views: &mut Vec<ActiveView>, view_index: usize, shallow_bump: Point)
    requires
        view_index < old(active_views)@.len(),
    ensures
        models(final(active_views)@) == check_view_spec(
            models(old(active_views)@).update(
                view_index as int,
                add_shallow_bump_spec(models(old(active_views)@)[view_index as int], shallow_bump),
            ),
            view_index as int,
        ),
{
    add_shallow_bump(&mut active_views[view_index], shallow_bump);
    proof {
        lemma_models_update(
            old(active_views)@,
            view_index as int,
            active_views@[view_index as int],
        );
    }
    check_view(active_views, view_index);
}

/// Adds then checks.
pub fn add_steep_and_check(active_views: &mut Vec<ActiveView>, view_index: usize, steep_bump: Point)
    requires
        view_index < old(active_views)@.len(),
    ensures
        models(final(active_views)@) == check_view_spec(
            models(old(active_views)@).update(
                view_index as int,
                add_steep_bump_spec(models(old(active_views)@)[view_index as int], steep_bump),
            ),
            view_index as int,
        ),
{
    add_steep_bump(&mut active_views[view_index], steep_bump);
    proof {
        lemma_models_update(
            old(active_views)@,
            view_index as int,
            active_views@[view_index as int],
        );
    }
    check_view(active_views, view_index);
}

// /////////////////////////////////////////////////////////////////////////
// Visiting one cell
// /////////////////////////////////////////////////////////////////////////

/// How many leading views the scan passes over: those whose steep line is
/// below-or-collinear with the cell's bottom right corner, so the cell cannot
/// lie within them.
pub open spec fn skip_count(views: Seq<ViewModel>, bottom_right: Point) -> int
    decreases views.len(),
{
    if views.len() == 0 {
        0
    } else if views[0].steep_line.spec_relative_slope(bottom_right) >= 0 {
        1 + skip_count(views.drop_first(), bottom_right)
    } else {
        0
    }
}

/// A scan that stopped at `i` with every earlier view passed over has found
/// exactly the skip count.
proof fn lemma_skip_count_prefix(views: Seq<ViewModel>, bottom_right: Point, i: int)
    requires
        0 <= i <= views.len(),
        forall|k: int|
            0 <= k < i ==> #[trigger] views[k].steep_line.spec_relative_slope(bottom_right) >= 0,
        i == views.len() || views[i].steep_line.spec_relative_slope(bottom_right) < 0,
    ensures
        skip_count(views, bottom_right) == i,
    decreases i,
{
    if i == 0 {
    } else {
        assert(views[0].steep_line.spec_relative_slope(bottom_right) >= 0);
        let rest = views.drop_first();
        assert(forall|k: int|
            0 <= k < i - 1 ==> #[trigger] rest[k].steep_line.spec_relative_slope(bottom_right)
                >= 0) by {
            assert(forall|k: int| 0 <= k < rest.len() ==> rest[k] == views[k + 1]);
        }
        assert(i - 1 == rest.len() || rest[i - 1].steep_line.spec_relative_slope(bottom_right)
            < 0);
        lemma_skip_count_prefix(rest, bottom_right, i - 1);
    }
}

/// What `visit_coord` does to the active views and the visited set: find the
/// view the cell falls in, record the cell as visible if there is one, and if
/// the cell blocks vision, tighten, split or remove that view.
pub open spec fn visit_coord_spec<F: VisionCheck>(
    vision: &F,
    dx: i32,
    dy: i32,
    start: Point,
    quadrant: Quadrant,
    views: Seq<ViewModel>,
    visited: Set<Point>,
) -> (Seq<ViewModel>, Set<Point>) {
    let top_left = Point { x: dx, y: (dy + 1) as i32 };
    let bottom_right = Point { x: (dx + 1) as i32, y: dy };
    let vi = skip_count(views, bottom_right);
    if vi == views.len() || views[vi].shallow_line.spec_relative_slope(top_left) <= 0 {
        (views, visited)
    } else {
        let true_location = Point {
            x: (start.x + dx * quadrant.spec_sign_x()) as i32,
            y: (start.y + dy * quadrant.spec_sign_y()) as i32,
        };
        let visited2 = visited.insert(true_location);
        if vision.spec_blocked(true_location) {
            let shallow_above_bottom_right = views[vi].shallow_line.spec_relative_slope(
                bottom_right,
            ) < 0;
            let steep_below_top_left = views[vi].steep_line.spec_relative_slope(top_left) > 0;
            let views2 = if shallow_above_bottom_right && steep_below_top_left {
                views.remove(vi)
            } else if shallow_above_bottom_right {
                check_view_spec(views.update(vi, add_shallow_bump_spec(views[vi], top_left)), vi)
            } else if steep_below_top_left {
                check_view_spec(views.update(vi, add_steep_bump_spec(views[vi], bottom_right)), vi)
            } else {
                let dup = views.insert(vi, views[vi]);
                let after_shallow = check_view_spec(
                    dup.update(vi + 1, add_shallow_bump_spec(dup[vi + 1], top_left)),
                    vi + 1,
                );
                check_view_spec(
                    after_shallow.update(vi, add_steep_bump_spec(after_shallow[vi], bottom_right)),
                    vi,
                )
            };
            (views2, visited2)
        } else {
            (views, visited2)
        }
    }
}

/// Attempts to visit a particular coordinate and updates the views as
/// necessary. It's possible that the specified location exists within no
/// views, in which case it will be bypassed.
pub fn visit_coord<F: VisionCheck>(
    vision: &F,
    dx: i32,
    dy: i32,
    start: Point,
    visited: &mut PointSet,
    quadrant: Quadrant,
    active_views: &mut Vec<ActiveView>,
)
    requires
        0 <= dx < i32::MAX,
        0 <= dy < i32::MAX,
        i32::MIN <= start.x - dx,
        start.x + dx <= i32::MAX,
        i32::MIN <= start.y - dy,
        start.y + dy <= i32::MAX,
    ensures
        models(final(active_views)@) == visit_coord_spec(
            vision,
            dx,
            dy,
            start,
            quadrant,
            models(old(active_views)@),
            old(visited)@,
        ).0,
        final(visited)@ == visit_coord_spec(
            vision,
            dx,
            dy,
            start,
            quadrant,
            models(old(active_views)@),
            old(visited)@,
        ).1,
        old(visited).wf() ==> final(visited).wf(),
{
    let ghost vs0 = models(old(active_views)@);
    let top_left = Point::new(dx, dy + 1);
    let bottom_right = Point::new(dx + 1, dy);
    let mut view_index_tmp: usize = 0;
    while view_index_tmp < active_views.len() && active_views[view_index_tmp].steep_line
        .is_below_or_collinear(bottom_right)
        invariant
            0 <= view_index_tmp <= active_views@.len(),
            active_views@ == old(active_views)@,
            bottom_right == (Point { x: (dx + 1) as i32, y: dy }),
            forall|k: int|
                0 <= k < view_index_tmp ==> #[trigger] models(
                    active_views@,
                )[k].steep_line.spec_relative_slope(bottom_right) >= 0,
        decreases active_views@.len() - view_index_tmp,
    {
        view_index_tmp += 1;
    }
    let view_index = view_index_tmp;
    proof {
        lemma_skip_count_prefix(vs0, bottom_right, view_index as int);
    }
    if view_index == active_views.len() || active_views[view_index].shallow_line
        .is_above_or_collinear(top_left) {
        // we didn't find a correct view, so we return early without adding
        // this location.
        return ;
    } else {
        let sx = quadrant.sign_x();
        let sy = quadrant.sign_y();
        proof {
            assert(sx == 1 || sx == -1);
            assert(sy == 1 || sy == -1);
            assert(dx * sx == dx || dx * sx == -dx) by (nonlinear_arith)
                requires
                    sx == 1 || sx == -1,
            ;
            assert(dy * sy == dy || dy * sy == -dy) by (nonlinear_arith)
                requires
                    sy == 1 || sy == -1,
            ;
        }
        let true_location = start.offset(dx * sx, dy * sy);
        visited.insert(true_location);
        if vision.blocked(true_location) {
            let shallow_above_bottom_right =
                active_views[view_index].shallow_line.is_above(bottom_right);
            let steep_below_top_left = active_views[view_index].steep_line.is_below(top_left);
            match (shallow_above_bottom_right, steep_below_top_left) {
                (true, true) => {
                    active_views.remove(view_index);
                    proof {
                        lemma_models_remove(old(active_views)@, view_index as int);
                    }
                },
                (true, false) => add_shallow_and_check(active_views, view_index, top_left),
                (false, true) => add_steep_and_check(active_views, view_index, bottom_right),
                (false, false) => {
                    let target = active_views[view_index].duplicate();
                    active_views.insert(view_index, target);
                    proof {
                        lemma_models_insert(old(active_views)@, view_index as int, target);
                        assert(models(active_views@) =~= vs0.insert(
                            view_index as int,
                            vs0[view_index as int],
                        ));
                    }
                    // these two lines must happen in this specific order in
                    // case the higher-indexed view fails the checking.
                    add_shallow_and_check(active_views, view_index + 1, top_left);
                    add_steep_and_check(active_views, view_index, bottom_right);
                },
            }
        }
    }
}

// /////////////////////////////////////////////////////////////////////////
// Sweeping a quadrant
// /////////////////////////////////////////////////////////////////////////

/// The first cell visited on diagonal `i`: the local y starts at `i - range`,
/// clipped to the quadrant.
pub open spec fn start_j_spec(i: int, range: int) -> int {
    vstd::math::max(i - range, 0)
}

/// One past the last cell visited on diagonal `i`.
pub open spec fn end_j_spec(i: int, range: int) -> int {
    vstd::math::min(i, range) + 1
}

/// The rest of one quadrant sweep, taken up at diagonal `i`, local y `j`,
/// with the given active views and visited set: the visited set it ends
/// with. Diagonals run from 1 up to `2 * range`; the sweep stops early the
/// moment no views are left.
pub open spec fn sweep_spec<F: VisionCheck>(
    vision: &F,
    range: i32,
    start: Point,
    quadrant: Quadrant,
    views: Seq<ViewModel>,
    visited: Set<Point>,
    i: int,
    j: int,
) -> Set<Point>
    decreases 2 * range + 1 - i, end_j_spec(i, range as int) - j,
{
    if !(1 <= i < 2 * range + 1) {
        visited
    } else if j >= end_j_spec(i, range as int) {
        sweep_spec(
            vision,
            range,
            start,
            quadrant,
            views,
            visited,
            i + 1,
            start_j_spec(i + 1, range as int),
        )
    } else {
        let r = visit_coord_spec(
            vision,
            (i - j) as i32,
            j as i32,
            start,
            quadrant,
            views,
            visited,
        );
        if r.0.len() == 0 {
            r.1
        } else {
            sweep_spec(vision, range, start, quadrant, r.0, r.1, i, j + 1)
        }
    }
}

/// The single view that a quadrant sweep starts from: a cone spanning the
/// whole quadrant, from the x axis direction to the y axis direction.
pub open spec fn initial_view_spec(range: i32) -> ViewModel {
    ViewModel {
        shallow_line: SightLine { x_initial: 0, y_initial: 1, x_final: range, y_final: 0 },
        steep_line: SightLine { x_initial: 1, y_initial: 0, x_final: 0, y_final: range },
        shallow_bumps: Seq::empty(),
        steep_bumps: Seq::empty(),
    }
}

/// What one whole quadrant sweep adds to the visited set.
pub open spec fn check_quadrant_spec<F: VisionCheck>(
    vision: &F,
    range: i32,
    start: Point,
    quadrant: Quadrant,
    visited: Set<Point>,
) -> Set<Point> {
    sweep_spec(
        vision,
        range,
        start,
        quadrant,
        seq![initial_view_spec(range)],
        visited,
        1,
        start_j_spec(1, range as int),
    )
}

/// Checks an entire quadrant by sweeping along -1 sloped lines that move
/// progressively outward while maintaining a list of "views" that are
/// currently active. The same pattern is performed for each quadrant, and the
/// quadrant value itself determines when to flip x and/or y as needed.
pub fn check_quadrant<F: VisionCheck>(
    vision: &F,
    range: i32,
    start: Point,
    visited: &mut PointSet,
    quadrant: Quadrant,
)
    requires
        0 <= range < i32::MAX,
        i32::MIN <= start.x - range,
        start.x + range <= i32::MAX,
        i32::MIN <= start.y - range,
        start.y + range <= i32::MAX,
    ensures
        final(visited)@ == check_quadrant_spec(vision, range, start, quadrant, old(visited)@),
        old(visited).wf() ==> final(visited).wf(),
{
    let ghost goal = check_quadrant_spec(vision, range, start, quadrant, old(visited)@);
    let mut active_views: Vec<ActiveView> = Vec::new();
    let shallow_line = SightLine::new(0, 1, range, 0);
    let steep_line = SightLine::new(1, 0, 0, range);
    active_views.push(ActiveView::new(shallow_line, steep_line));
    proof {
        assert(models(active_views@) =~= seq![initial_view_spec(range)]);
    }
    let max_index: i64 = 2 * (range as i64) + 1;
    let mut i: i64 = 1;
    while i < max_index
        invariant
            1 <= i <= max_index,
            max_index == 2 * (range as i64) + 1,
            0 <= range < i32::MAX,
            i32::MIN <= start.x - range,
            start.x + range <= i32::MAX,
            i32::MIN <= start.y - range,
            start.y + range <= i32::MAX,
            active_views@.len() > 0,
            old(visited).wf() ==> visited.wf(),
            goal == check_quadrant_spec(vision, range, start, quadrant, old(visited)@),
            goal == sweep_spec(
                vision,
                range,
                start,
                quadrant,
                models(active_views@),
                visited@,
                i as int,
                start_j_spec(i as int, range as int),
            ),
        decreases max_index - i,
    {
        let start_j: i64 = if i - (range as i64) > 0 {
            i - (range as i64)
        } else {
            0
        };
        let max_j: i64 = (if i < (range as i64) {
            i
        } else {
            (range as i64)
        }) + 1;
        let mut j: i64 = start_j;
        while j < max_j
            invariant
                start_j <= j <= max_j,
                start_j == start_j_spec(i as int, range as int),
                max_j == end_j_spec(i as int, range as int),
                1 <= i < max_index,
                max_index == 2 * (range as i64) + 1,
                0 <= range < i32::MAX,
                i32::MIN <= start.x - range,
                start.x + range <= i32::MAX,
                i32::MIN <= start.y - range,
                start.y + range <= i32::MAX,
                active_views@.len() > 0,
                old(visited).wf() ==> visited.wf(),
                goal == check_quadrant_spec(vision, range, start, quadrant, old(visited)@),
                goal == sweep_spec(
                    vision,
                    range,
                    start,
                    quadrant,
                    models(active_views@),
                    visited@,
                    i as int,
                    j as int,
                ),
            decreases max_j - j,
        {
            let dx: i32 = (i - j) as i32;
            let dy: i32 = j as i32;
            visit_coord(vision, dx, dy, start, visited, quadrant, &mut active_views);
            if active_views.is_empty() {
                return ;
            }
            j = j + 1;
        }
        i = i + 1;
    }
}

// /////////////////////////////////////////////////////////////////////////
// The public entry point
// /////////////////////////////////////////////////////////////////////////

/// The working range: the requested one, clamped to one less than the
/// largest signed value so that all sweep arithmetic stays in one signed
/// domain.
pub open spec fn clamp_range_spec(range: u32) -> i32 {
    if range > (i32::MAX - 1) as u32 {
        (i32::MAX - 1) as i32
    } else {
        range as i32
    }
}

/// The full field-of-view computation: the start cell plus what the four
/// quadrant sweeps find, each feeding the next the set so far.
pub open spec fn ppfov_spec<F: VisionCheck>(vision: &F, range: u32, start: Point) -> Set<Point> {
    let irange = clamp_range_spec(range);
    let v1 = check_quadrant_spec(vision, irange, start, Quadrant::One, set![start]);
    let v2 = check_quadrant_spec(vision, irange, start, Quadrant::Two, v1);
    let v3 = check_quadrant_spec(vision, irange, start, Quadrant::Three, v2);
    check_quadrant_spec(vision, irange, start, Quadrant::Four, v3)
}

/// Given a vision checker, range of vision, and starting location, determines
/// all locations that can be seen using the Precise Permissive Field of View
/// technique. Worst case runtime is O(n^2). The `range` is a `u32` because
/// `range` must be non-negative, and that's the easiest way to signal such a
/// requirement; it is clamped so that the actual maximum computed range is 1
/// less than the `i32` maximum. The start location and the clamped range put
/// together must not run off the edge of the coordinate space.
pub fn ppfov<F: VisionCheck>(vision: &F, range: u32, start: Point) -> (visited: PointSet)
    requires
        i32::MIN <= start.x - clamp_range_spec(range),
        start.x + clamp_range_spec(range) <= i32::MAX,
        i32::MIN <= start.y - clamp_range_spec(range),
        start.y + clamp_range_spec(range) <= i32::MAX,
    ensures
        visited@ == ppfov_spec(vision, range, start),
        visited.wf(),
        visited@.contains(start),
        forall|p: Point|
            visited@.contains(p) ==> start.x - clamp_range_spec(range) <= p.x <= start.x
                + clamp_range_spec(range) && start.y - clamp_range_spec(range) <= p.y <= start.y
                + clamp_range_spec(range),
{
    let mut visited = PointSet::new();
    visited.insert(start);
    proof {
        assert(visited@ =~= set![start]);
    }
    // We get the range value into a good place here (equal to or greater than
    // zero, and at least 1 less than the `i32` maximum) and from here on we
    // can just use all `i32` values, because it's a whole lot easier to do
    // work when everything is the same signed-ness.
    let irange: i32 = if range > (i32::MAX - 1) as u32 {
        i32::MAX - 1
    } else {
        range as i32
    };
    check_quadrant(vision, irange, start, &mut visited, Quadrant::One);
    check_quadrant(vision, irange, start, &mut visited, Quadrant::Two);
    check_quadrant(vision, irange, start, &mut visited, Quadrant::Three);
    check_quadrant(vision, irange, start, &mut visited, Quadrant::Four);
    proof {
        lemma_ppfov_contains_start(vision, range, start);
        lemma_ppfov_within_range(vision, range, start);
    }
    visited
}

// /////////////////////////////////////////////////////////////////////////
// Laws
// /////////////////////////////////////////////////////////////////////////

/// One visit never removes anything from the visited set.
proof fn lemma_visit_monotone<F: VisionCheck>(
    vision: &F,
    dx: i32,
    dy: i32,
    start: Point,
    quadrant: Quadrant,
    views: Seq<ViewModel>,
    visited: Set<Point>,
)
    ensures
        visited.subset_of(visit_coord_spec(vision, dx, dy, start, quadrant, views, visited).1),
{
}

/// A sweep never removes anything from the visited set.
proof fn lemma_sweep_monotone<F: VisionCheck>(
    vision: &F,
    range: i32,
    start: Point,
    quadrant: Quadrant,
    views: Seq<ViewModel>,
    visited: Set<Point>,
    i: int,
    j: int,
)
    ensures
        visited.subset_of(sweep_spec(vision, range, start, quadrant, views, visited, i, j)),
    decreases 2 * range + 1 - i, end_j_spec(i, range as int) - j,
{
    if !(1 <= i < 2 * range + 1) {
    } else if j >= end_j_spec(i, range as int) {
        lemma_sweep_monotone(
            vision,
            range,
            start,
            quadrant,
            views,
            visited,
            i + 1,
            start_j_spec(i + 1, range as int),
        );
    } else {
        let r = visit_coord_spec(vision, (i - j) as i32, j as i32, start, quadrant, views, visited);
        lemma_visit_monotone(vision, (i - j) as i32, j as i32, start, quadrant, views, visited);
        if r.0.len() == 0 {
        } else {
            lemma_sweep_monotone(vision, range, start, quadrant, r.0, r.1, i, j + 1);
        }
    }
}

/// A quadrant sweep never removes anything from the visited set.
pub proof fn lemma_check_quadrant_monotone<F: VisionCheck>(
    vision: &F,
    range: i32,
    start: Point,
    quadrant: Quadrant,
    visited: Set<Point>,
)
    ensures
        visited.subset_of(check_quadrant_spec(vision, range, start, quadrant, visited)),
{
    lemma_sweep_monotone(
        vision,
        range,
        start,
        quadrant,
        seq![initial_view_spec(range)],
        visited,
        1,
        start_j_spec(1, range as int),
    );
}

/// The start location is always in the output, whatever the oracle says and
/// whatever the range, even a range of 0.
pub proof fn lemma_ppfov_contains_start<F: VisionCheck>(vision: &F, range: u32, start: Point)
    ensures
        ppfov_spec(vision, range, start).contains(start),
{
    let irange = clamp_range_spec(range);
    let v1 = check_quadrant_spec(vision, irange, start, Quadrant::One, set![start]);
    let v2 = check_quadrant_spec(vision, irange, start, Quadrant::Two, v1);
    let v3 = check_quadrant_spec(vision, irange, start, Quadrant::Three, v2);
    lemma_check_quadrant_monotone(vision, irange, start, Quadrant::One, set![start]);
    lemma_check_quadrant_monotone(vision, irange, start, Quadrant::Two, v1);
    lemma_check_quadrant_monotone(vision, irange, start, Quadrant::Three, v2);
    lemma_check_quadrant_monotone(vision, irange, start, Quadrant::Four, v3);
    assert(set![start].contains(start));
}

/// With range 0 the output is exactly the start cell and nothing else.
pub proof fn lemma_ppfov_range_zero<F: VisionCheck>(vision: &F, start: Point)
    ensures
        ppfov_spec(vision, 0, start) == set![start],
{
    let irange = clamp_range_spec(0);
    assert(irange == 0);
    assert forall|visited: Set<Point>, quadrant: Quadrant| #[trigger] check_quadrant_spec(
        vision,
        0,
        start,
        quadrant,
        visited,
    ) == visited by {
        assert(sweep_spec(
            vision,
            0,
            start,
            quadrant,
            seq![initial_view_spec(0)],
            visited,
            1,
            start_j_spec(1, 0),
        ) == visited);
    }
}

/// Everything one visit adds to the visited set lies within `range` of the
/// start on both axes.
proof fn lemma_visit_within<F: VisionCheck>(
    vision: &F,
    dx: i32,
    dy: i32,
    start: Point,
    quadrant: Quadrant,
    views: Seq<ViewModel>,
    visited: Set<Point>,
    range: i32,
)
    requires
        0 <= dx <= range,
        0 <= dy <= range,
        i32::MIN <= start.x - range,
        start.x + range <= i32::MAX,
        i32::MIN <= start.y - range,
        start.y + range <= i32::MAX,
    ensures
        forall|p: Point|
            visit_coord_spec(vision, dx, dy, start, quadrant, views, visited).1.contains(p)
                ==> visited.contains(p) || (start.x - range <= p.x <= start.x + range && start.y
                - range <= p.y <= start.y + range),
{
    let sx = quadrant.spec_sign_x();
    let sy = quadrant.spec_sign_y();
    assert(sx == 1 || sx == -1);
    assert(sy == 1 || sy == -1);
    assert(-range <= dx * sx <= range && -range <= dy * sy <= range) by (nonlinear_arith)
        requires
            0 <= dx <= range,
            0 <= dy <= range,
            sx == 1 || sx == -1,
            sy == 1 || sy == -1,
    ;
}

/// Everything a sweep adds, taken up anywhere in its run, lies within
/// `range` of the start on both axes.
proof fn lemma_sweep_within<F: VisionCheck>(
    vision: &F,
    range: i32,
    start: Point,
    quadrant: Quadrant,
    views: Seq<ViewModel>,
    visited: Set<Point>,
    i: int,
    j: int,
)
    requires
        0 <= range,
        0 <= j,
        i - range <= j,
        i32::MIN <= start.x - range,
        start.x + range <= i32::MAX,
        i32::MIN <= start.y - range,
        start.y + range <= i32::MAX,
    ensures
        forall|p: Point|
            sweep_spec(vision, range, start, quadrant, views, visited, i, j).contains(p)
                ==> visited.contains(p) || (start.x - range <= p.x <= start.x + range && start.y
                - range <= p.y <= start.y + range),
    decreases 2 * range + 1 - i, end_j_spec(i, range as int) - j,
{
    if !(1 <= i < 2 * range + 1) {
    } else if j >= end_j_spec(i, range as int) {
        lemma_sweep_within(
            vision,
            range,
            start,
            quadrant,
            views,
            visited,
            i + 1,
            start_j_spec(i + 1, range as int),
        );
    } else {
        let dx = (i - j) as i32;
        let dy = j as i32;
        let r = visit_coord_spec(vision, dx, dy, start, quadrant, views, visited);
        lemma_visit_within(vision, dx, dy, start, quadrant, views, visited, range);
        if r.0.len() == 0 {
        } else {
            lemma_sweep_within(vision, range, start, quadrant, r.0, r.1, i, j + 1);
        }
    }
}

/// The hard range cutoff: every cell the computation reports lies within the
/// clamped range of the start on both axes.
pub proof fn lemma_ppfov_within_range<F: VisionCheck>(vision: &F, range: u32, start: Point)
    requires
        i32::MIN <= start.x - clamp_range_spec(range),
        start.x + clamp_range_spec(range) <= i32::MAX,
        i32::MIN <= start.y - clamp_range_spec(range),
        start.y + clamp_range_spec(range) <= i32::MAX,
    ensures
        forall|p: Point|
            ppfov_spec(vision, range, start).contains(p) ==> start.x - clamp_range_spec(range)
                <= p.x <= start.x + clamp_range_spec(range) && start.y - clamp_range_spec(range)
                <= p.y <= start.y + clamp_range_spec(range),
{
    let irange = clamp_range_spec(range);
    let v0 = set![start];
    let v1 = check_quadrant_spec(vision, irange, start, Quadrant::One, v0);
    let v2 = check_quadrant_spec(vision, irange, start, Quadrant::Two, v1);
    let v3 = check_quadrant_spec(vision, irange, start, Quadrant::Three, v2);
    lemma_sweep_within(
        vision,
        irange,
        start,
        Quadrant::One,
        seq![initial_view_spec(irange)],
        v0,
        1,
        start_j_spec(1, irange as int),
    );
    lemma_sweep_within(
        vision,
        irange,
        start,
        Quadrant::Two,
        seq![initial_view_spec(irange)],
        v1,
        1,
        start_j_spec(1, irange as int),
    );
    lemma_sweep_within(
        vision,
        irange,
        start,
        Quadrant::Three,
        seq![initial_view_spec(irange)],
        v2,
        1,
        start_j_spec(1, irange as int),
    );
    lemma_sweep_within(
        vision,
        irange,
        start,
        Quadrant::Four,
        seq![initial_view_spec(irange)],
        v3,
        1,
        start_j_spec(1, irange as int),
    );
    assert forall|p: Point|
        ppfov_spec(vision, range, start).contains(p) implies start.x - irange <= p.x <= start.x
        + irange && start.y - irange <= p.y <= start.y + irange by {
        let in_window = start.x - irange <= p.x <= start.x + irange && start.y - irange <= p.y
            <= start.y + irange;
        if !in_window {
            assert(v3.contains(p));
            assert(v2.contains(p));
            assert(v1.contains(p));
            assert(v0.contains(p));
            assert(p == start);
        }
    }
}

/// The cells a computation from `start` with working range `range` can ever
/// name.
pub open spec fn in_window(q: Point, start: Point, range: i32) -> bool {
    &&& start.x - range <= q.x <= start.x + range
    &&& start.y - range <= q.y <= start.y + range
}

/// The same grid cell, seen from the second start instead of the first: the
/// point moved by the difference of the two starts.
pub open spec fn translate_point(q: Point, s1: Point, s2: Point) -> Point {
    Point { x: (q.x - s1.x + s2.x) as i32, y: (q.y - s1.y + s2.y) as i32 }
}

/// A whole set of cells, moved by the difference of the two starts.
pub open spec fn translate_set(s: Set<Point>, s1: Point, s2: Point) -> Set<Point> {
    s.map(|q: Point| translate_point(q, s1, s2))
}

proof fn lemma_translate_set_insert(s: Set<Point>, x: Point, s1: Point, s2: Point)
    ensures
        translate_set(s.insert(x), s1, s2) == translate_set(s, s1, s2).insert(
            translate_point(x, s1, s2),
        ),
{
    let f = |q: Point| translate_point(q, s1, s2);
    assert forall|y: Point| s.insert(x).map(f).contains(y) implies s.map(f).insert(
        f(x),
    ).contains(y) by {
        let a = choose|a: Point| s.insert(x).contains(a) && y == f(a);
        if a == x {
        } else {
            assert(s.contains(a));
            assert(s.map(f).contains(y));
        }
    }
    assert forall|y: Point| s.map(f).insert(f(x)).contains(y) implies s.insert(x).map(
        f,
    ).contains(y) by {
        if s.map(f).contains(y) {
            let a = choose|a: Point| s.contains(a) && y == f(a);
            assert(s.insert(x).contains(a));
        } else {
            assert(y == f(x));
            assert(s.insert(x).contains(x));
        }
    }
    assert(s.insert(x).map(f) =~= s.map(f).insert(f(x)));
}

/// One visit, run from the second start against an oracle that answers the
/// translated question the same way, touches the views identically and adds
/// the translated cells.
proof fn lemma_visit_translate<F: VisionCheck, G: VisionCheck>(
    v1: &F,
    v2: &G,
    dx: i32,
    dy: i32,
    s1: Point,
    s2: Point,
    quadrant: Quadrant,
    views: Seq<ViewModel>,
    set1: Set<Point>,
    range: i32,
)
    requires
        0 <= dx <= range,
        0 <= dy <= range,
        i32::MIN <= s1.x - range,
        s1.x + range <= i32::MAX,
        i32::MIN <= s1.y - range,
        s1.y + range <= i32::MAX,
        i32::MIN <= s2.x - range,
        s2.x + range <= i32::MAX,
        i32::MIN <= s2.y - range,
        s2.y + range <= i32::MAX,
        forall|q: Point|
            in_window(q, s1, range) ==> #[trigger] v2.spec_blocked(translate_point(q, s1, s2))
                == v1.spec_blocked(q),
    ensures
        visit_coord_spec(v2, dx, dy, s2, quadrant, views, translate_set(set1, s1, s2)).0
            == visit_coord_spec(v1, dx, dy, s1, quadrant, views, set1).0,
        visit_coord_spec(v2, dx, dy, s2, quadrant, views, translate_set(set1, s1, s2)).1
            == translate_set(visit_coord_spec(v1, dx, dy, s1, quadrant, views, set1).1, s1, s2),
{
    let sx = quadrant.spec_sign_x();
    let sy = quadrant.spec_sign_y();
    assert(sx == 1 || sx == -1);
    assert(sy == 1 || sy == -1);
    assert(-range <= dx * sx <= range && -range <= dy * sy <= range) by (nonlinear_arith)
        requires
            0 <= dx <= range,
            0 <= dy <= range,
            sx == 1 || sx == -1,
            sy == 1 || sy == -1,
    ;
    let top_left = Point { x: dx, y: (dy + 1) as i32 };
    let bottom_right = Point { x: (dx + 1) as i32, y: dy };
    let vi = skip_count(views, bottom_right);
    if vi == views.len() || views[vi].shallow_line.spec_relative_slope(top_left) <= 0 {
    } else {
        let tl1 = Point { x: (s1.x + dx * sx) as i32, y: (s1.y + dy * sy) as i32 };
        let tl2 = Point { x: (s2.x + dx * sx) as i32, y: (s2.y + dy * sy) as i32 };
        assert(in_window(tl1, s1, range));
        assert(tl2 == translate_point(tl1, s1, s2));
        assert(v2.spec_blocked(tl2) == v1.spec_blocked(tl1));
        lemma_translate_set_insert(set1, tl1, s1, s2);
    }
}

/// A whole sweep, run from the second start against a translated oracle,
/// ends with the translated visited set.
proof fn lemma_sweep_translate<F: VisionCheck, G: VisionCheck>(
    v1: &F,
    v2: &G,
    range: i32,
    s1: Point,
    s2: Point,
    quadrant: Quadrant,
    views: Seq<ViewModel>,
    set1: Set<Point>,
    i: int,
    j: int,
)
    requires
        0 <= range,
        0 <= j,
        i - range <= j,
        i32::MIN <= s1.x - range,
        s1.x + range <= i32::MAX,
        i32::MIN <= s1.y - range,
        s1.y + range <= i32::MAX,
        i32::MIN <= s2.x - range,
        s2.x + range <= i32::MAX,
        i32::MIN <= s2.y - range,
        s2.y + range <= i32::MAX,
        forall|q: Point|
            in_window(q, s1, range) ==> #[trigger] v2.spec_blocked(translate_point(q, s1, s2))
                == v1.spec_blocked(q),
    ensures
        sweep_spec(v2, range, s2, quadrant, views, translate_set(set1, s1, s2), i, j)
            == translate_set(sweep_spec(v1, range, s1, quadrant, views, set1, i, j), s1, s2),
    decreases 2 * range + 1 - i, end_j_spec(i, range as int) - j,
{
    if !(1 <= i < 2 * range + 1) {
    } else if j >= end_j_spec(i, range as int) {
        lemma_sweep_translate(
            v1,
            v2,
            range,
            s1,
            s2,
            quadrant,
            views,
            set1,
            i + 1,
            start_j_spec(i + 1, range as int),
        );
    } else {
        let dx = (i - j) as i32;
        let dy = j as i32;
        lemma_visit_translate(v1, v2, dx, dy, s1, s2, quadrant, views, set1, range);
        let r1 = visit_coord_spec(v1, dx, dy, s1, quadrant, views, set1);
        if r1.0.len() == 0 {
        } else {
            lemma_sweep_translate(v1, v2, range, s1, s2, quadrant, r1.0, r1.1, i, j + 1);
        }
    }
}

/// Translation invariance: the engine works purely in offsets from the
/// start. Shift the start and ask the oracle the correspondingly shifted
/// questions, and the whole visible picture shifts with it.
pub proof fn lemma_ppfov_translation<F: VisionCheck, G: VisionCheck>(
    v1: &F,
    v2: &G,
    range: u32,
    s1: Point,
    s2: Point,
)
    requires
        i32::MIN <= s1.x - clamp_range_spec(range),
        s1.x + clamp_range_spec(range) <= i32::MAX,
        i32::MIN <= s1.y - clamp_range_spec(range),
        s1.y + clamp_range_spec(range) <= i32::MAX,
        i32::MIN <= s2.x - clamp_range_spec(range),
        s2.x + clamp_range_spec(range) <= i32::MAX,
        i32::MIN <= s2.y - clamp_range_spec(range),
        s2.y + clamp_range_spec(range) <= i32::MAX,
        forall|q: Point|
            in_window(q, s1, clamp_range_spec(range)) ==> #[trigger] v2.spec_blocked(
                translate_point(q, s1, s2),
            ) == v1.spec_blocked(q),
    ensures
        ppfov_spec(v2, range, s2) == translate_set(ppfov_spec(v1, range, s1), s1, s2),
{
    let irange = clamp_range_spec(range);
    let f = |q: Point| translate_point(q, s1, s2);
    assert(set![s2] =~= translate_set(set![s1], s1, s2)) by {
        assert(translate_point(s1, s1, s2) == s2);
        assert(set![s1].contains(s1));
        assert(translate_set(set![s1], s1, s2).contains(s2));
        assert forall|y: Point| translate_set(set![s1], s1, s2).contains(y) implies set![
            s2,
        ].contains(y) by {
            let a = choose|a: Point| set![s1].contains(a) && y == f(a);
            assert(a == s1);
        }
    }
    let a1 = check_quadrant_spec(v1, irange, s1, Quadrant::One, set![s1]);
    let a2 = check_quadrant_spec(v1, irange, s1, Quadrant::Two, a1);
    let a3 = check_quadrant_spec(v1, irange, s1, Quadrant::Three, a2);
    lemma_sweep_translate(
        v1,
        v2,
        irange,
        s1,
        s2,
        Quadrant::One,
        seq![initial_view_spec(irange)],
        set![s1],
        1,
        start_j_spec(1, irange as int),
    );
    lemma_sweep_translate(
        v1,
        v2,
        irange,
        s1,
        s2,
        Quadrant::Two,
        seq![initial_view_spec(irange)],
        a1,
        1,
        start_j_spec(1, irange as int),
    );
    lemma_sweep_translate(
        v1,
        v2,
        irange,
        s1,
        s2,
        Quadrant::Three,
        seq![initial_view_spec(irange)],
        a2,
        1,
        start_j_spec(1, irange as int),
    );
    lemma_sweep_translate(
        v1,
        v2,
        irange,
        s1,
        s2,
        Quadrant::Four,
        seq![initial_view_spec(irange)],
        a3,
        1,
        start_j_spec(1, irange as int),
    );
}

/// One visit leaves the active views list at most one view longer and at
/// most one shorter: the view a blocking cell falls in is tightened in
/// place, split into two, or removed, and no other view is touched.
pub proof fn lemma_visit_coord_view_count<F: VisionCheck>(
    vision: &F,
    dx: i32,
    dy: i32,
    start: Point,
    quadrant: Quadrant,
    views: Seq<ViewModel>,
    visited: Set<Point>,
)
    ensures
        ({
            let r = visit_coord_spec(vision, dx, dy, start, quadrant, views, visited);
            views.len() - 1 <= r.0.len() <= views.len() + 1
        }),
{
    let bottom_right = Point { x: (dx + 1) as i32, y: dy };
    lemma_skip_count_in_bounds(views, bottom_right);
}

/// The skip count never runs past the end of the list.
proof fn lemma_skip_count_in_bounds(views: Seq<ViewModel>, bottom_right: Point)
    ensures
        0 <= skip_count(views, bottom_right) <= views.len(),
    decreases views.len(),
{
    if views.len() != 0 && views[0].steep_line.spec_relative_slope(bottom_right) >= 0 {
        lemma_skip_count_in_bounds(views.drop_first(), bottom_right);
    }
}

/// Two computations with identical inputs produce identical sets: the result
/// is a function of the oracle's predicate, the range and the start alone.
pub proof fn lemma_ppfov_deterministic<F: VisionCheck>(
    vision: &F,
    range: u32,
    start: Point,
    r1: PointSet,
    r2: PointSet,
)
    requires
        r1@ == ppfov_spec(vision, range, start),
        r2@ == ppfov_spec(vision, range, start),
    ensures
        r1@ == r2@,
{
}

} // verus!
