//! The order in which a plane hands out its plots.
//!
//! The plots are numbered in the order of allocation: the plot at the origin
//! is plot 0, the three plots of ring 1 follow, then the five of ring 2. The
//! laws below say that this numbering runs through every plot of the plane
//! once and only once, ring by ring, and that it ends for good after the last
//! plot of the last ring.

use crate::state::{lemma_ring_start, LandPlane, LandPlaneVersion};
use vstd::prelude::*;

verus! {

/// The number of plots of a plane: every pair of coordinates is one.
pub open spec fn plot_count() -> int {
    (u64::MAX + 1) * (u64::MAX + 1)
}

/// The cursor that stands on the plot with the given coordinates: the ring
/// of a plot is the greater of its coordinates.
pub open spec fn cursor_at(x: u64, z: u64) -> LandPlane {
    LandPlane {
        version: LandPlaneVersion::V1,
        next_x: x,
        next_z: z,
        depth: if x >= z {
            x
        } else {
            z
        },
    }
}

impl LandPlane {
    /// The plane after `n` requests to advance it, the refused ones counted.
    pub open spec fn advanced(self, n: nat) -> LandPlane
        decreases n,
    {
        if n == 0 {
            self
        } else {
            self.advanced((n - 1) as nat).successor()
        }
    }
}

proof fn lemma_square_monotonic(a: int, b: int)
    requires
        0 <= a <= b,
    ensures
        a * a <= b * b,
{
    assert(a * a <= b * b) by (nonlinear_arith)
        requires
            0 <= a <= b,
    ;
}

/// A cursor on its ring stays on a ring when it advances, and an initialised
/// plane stays initialised.
pub proof fn lemma_successor_on_ring(plane: LandPlane)
    requires
        plane.on_ring(),
    ensures
        plane.successor().on_ring(),
        plane.successor().version == plane.version,
{
}

/// However many requests follow, a cursor that lies on its ring stays on a
/// ring: what initialisation establishes of a plane, advancing it keeps.
pub proof fn lemma_advanced_on_ring(plane: LandPlane, n: nat)
    requires
        plane.on_ring(),
    ensures
        plane.advanced(n).on_ring(),
        plane.advanced(n).version == plane.version,
        LandPlane::initial().on_ring(),
    decreases n,
{
    if n > 0 {
        lemma_advanced_on_ring(plane, (n - 1) as nat);
        lemma_successor_on_ring(plane.advanced((n - 1) as nat));
    }
}

/// Each plot that is handed out is the next in the numbering.
pub proof fn lemma_successor_ordinal(plane: LandPlane)
    requires
        plane.on_ring(),
        !plane.exhausted(),
    ensures
        plane.successor().ordinal() == plane.ordinal() + 1,
{
    lemma_ring_start(plane.depth as int);
}

/// The numbers of the plots of ring `depth` follow those of the square inside
/// it, and the last plot of the last ring has the greatest number of all.
pub proof fn lemma_ordinal_bounds(plane: LandPlane)
    requires
        plane.on_ring(),
    ensures
        plane.depth * plane.depth <= plane.ordinal() < (plane.depth + 1) * (plane.depth + 1),
        0 <= plane.ordinal() < plot_count(),
        plane.exhausted() <==> plane.ordinal() == plot_count() - 1,
{
    let d = plane.depth as int;
    lemma_ring_start(d);
    lemma_square_monotonic(0, d);
    lemma_square_monotonic(d + 1, u64::MAX + 1);
    lemma_ring_start(u64::MAX as int);
    if d < u64::MAX {
        lemma_square_monotonic(d + 1, u64::MAX as int);
    }
}

/// No two plots share a number: a cursor on its ring is known by its place
/// in the order.
pub proof fn lemma_ordinal_injective(a: LandPlane, b: LandPlane)
    requires
        a.on_ring(),
        b.on_ring(),
        a.ordinal() == b.ordinal(),
    ensures
        a.next_x == b.next_x,
        a.next_z == b.next_z,
        a.depth == b.depth,
{
    lemma_ordinal_bounds(a);
    lemma_ordinal_bounds(b);
    if a.depth < b.depth {
        lemma_square_monotonic(a.depth + 1, b.depth as int);
    }
    if b.depth < a.depth {
        lemma_square_monotonic(b.depth + 1, a.depth as int);
    }
}

/// As long as plots are left, `n` requests hand out the `n` plots that follow
/// in the numbering.
pub proof fn lemma_advanced_ordinal(plane: LandPlane, n: nat)
    requires
        plane.on_ring(),
        plane.ordinal() + n < plot_count(),
    ensures
        plane.advanced(n).on_ring(),
        plane.advanced(n).version == plane.version,
        plane.advanced(n).ordinal() == plane.ordinal() + n,
    decreases n,
{
    if n > 0 {
        let before = plane.advanced((n - 1) as nat);
        lemma_advanced_ordinal(plane, (n - 1) as nat);
        lemma_ordinal_bounds(before);
        lemma_successor_on_ring(before);
        lemma_successor_ordinal(before);
    }
}

/// Requests may be counted in two lots: to advance a plane by `a + b`
/// requests is to advance it by `a` and then by `b`.
pub proof fn lemma_advanced_sum(plane: LandPlane, a: nat, b: nat)
    ensures
        plane.advanced(a + b) == plane.advanced(a).advanced(b),
    decreases b,
{
    if b > 0 {
        lemma_advanced_sum(plane, a, (b - 1) as nat);
        assert((a + b - 1) as nat == a + (b - 1) as nat);
    }
}

/// A fresh plane grants a request for every plot of the plane and refuses
/// every request after that: it is exhausted when all plots but the last
/// have been handed out and the last is the cursor, and not before.
pub proof fn lemma_granted_until_exhausted(n: nat)
    ensures
        LandPlane::initial().advanced(n).exhausted() <==> n >= plot_count() - 1,
{
    let fresh = LandPlane::initial();
    lemma_ordinal_bounds(fresh);
    if n < plot_count() {
        lemma_advanced_ordinal(fresh, n);
        lemma_ordinal_bounds(fresh.advanced(n));
    } else {
        let last = (plot_count() - 1) as nat;
        lemma_advanced_ordinal(fresh, last);
        lemma_ordinal_bounds(fresh.advanced(last));
        lemma_advanced_sum(fresh, last, (n - last) as nat);
        lemma_exhausted_stays(fresh.advanced(last), (n - last) as nat);
    }
}

/// From a fresh plane, any two requests hand out plots with different
/// coordinates: no plot is handed out twice.
pub proof fn lemma_plots_distinct(i: nat, j: nat)
    requires
        i < j < plot_count(),
    ensures
        LandPlane::initial().advanced(i).next_x != LandPlane::initial().advanced(j).next_x
            || LandPlane::initial().advanced(i).next_z != LandPlane::initial().advanced(j).next_z,
{
    let a = LandPlane::initial().advanced(i);
    let b = LandPlane::initial().advanced(j);
    lemma_advanced_ordinal(LandPlane::initial(), i);
    lemma_advanced_ordinal(LandPlane::initial(), j);
    if a.next_x == b.next_x && a.next_z == b.next_z {
        assert(a.depth == b.depth);
        assert(a.ordinal() == b.ordinal());
    }
}

/// Every plot of the plane is handed out: a fresh plane stands on the plot
/// with coordinates `x` and `z` after as many requests as plots come before
/// it in the numbering.
pub proof fn lemma_plot_reached(x: u64, z: u64)
    ensures
        0 <= cursor_at(x, z).ordinal() < plot_count(),
        LandPlane::initial().advanced(cursor_at(x, z).ordinal() as nat) == cursor_at(x, z),
{
    let target = cursor_at(x, z);
    lemma_ordinal_bounds(target);
    let n = target.ordinal() as nat;
    lemma_advanced_ordinal(LandPlane::initial(), n);
    lemma_ordinal_injective(LandPlane::initial().advanced(n), target);
}

/// A ring is begun only when the square inside it is full: by the time a
/// fresh plane has reached a depth, every plot nearer to the origin than that
/// depth has been handed out.
pub proof fn lemma_ring_filled_before_growth(x: u64, z: u64, n: nat)
    requires
        n < plot_count(),
        x < LandPlane::initial().advanced(n).depth,
        z < LandPlane::initial().advanced(n).depth,
    ensures
        cursor_at(x, z).ordinal() < n,
        LandPlane::initial().advanced(cursor_at(x, z).ordinal() as nat) == cursor_at(x, z),
{
    let target = cursor_at(x, z);
    let now = LandPlane::initial().advanced(n);
    lemma_advanced_ordinal(LandPlane::initial(), n);
    lemma_ordinal_bounds(target);
    lemma_ordinal_bounds(now);
    lemma_square_monotonic(target.depth + 1, now.depth as int);
    lemma_plot_reached(x, z);
}

/// The depth of a plane grows by one when a ring is completed and a further
/// ring is left, and stays as it is with every other request.
pub proof fn lemma_successor_depth(plane: LandPlane)
    ensures
        plane.ring_complete() && !plane.exhausted() ==> plane.successor().depth == plane.depth
            + 1,
        !plane.ring_complete() || plane.exhausted() ==> plane.successor().depth == plane.depth,
{
}

/// The depth of a plane never shrinks, however many requests follow.
pub proof fn lemma_depth_never_shrinks(plane: LandPlane, n: nat)
    ensures
        plane.advanced(n).depth >= plane.depth,
    decreases n,
{
    if n > 0 {
        lemma_depth_never_shrinks(plane, (n - 1) as nat);
        lemma_successor_depth(plane.advanced((n - 1) as nat));
    }
}

/// Once the last plot of the last ring is the cursor, no request moves the
/// plane again.
pub proof fn lemma_exhausted_stays(plane: LandPlane, n: nat)
    requires
        plane.exhausted(),
    ensures
        plane.advanced(n) == plane,
        plane.advanced(n).exhausted(),
    decreases n,
{
    if n > 0 {
        lemma_exhausted_stays(plane, (n - 1) as nat);
    }
}

} // verus!
