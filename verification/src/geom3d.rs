//! Spatial turtle graphics: positions, bearings with azimuth and
//! declination, a turtle with a save stack, and the mapper that turns a
//! symbol sequence into line segments and markers, with a fresh random
//! jitter added to the move distance on every forward step.
//!
//! A forward step of length `d` with azimuth `a` and declination `e`
//! displaces by `d*cos(a)*sin(e)` in x, `d*sin(a)*sin(e)` in y and
//! `d*cos(e)` in z, in the fixed-point trigonometry of [`crate::trig`].

use vstd::prelude::*;
use crate::rng::RandomSource;
use crate::trig::COORD_LIMIT;
use crate::trig::MAX_STEP;
use crate::trig::MAX_SYMS;
use crate::trig::POS_LIMIT;
use crate::trig::cos_scaled;
use crate::trig::lemma_sin_cos_bounds;
use crate::trig::lemma_spec_scaled_bound;
use crate::trig::lemma_spec_scaled2_bound;
use crate::trig::scaled;
use crate::trig::scaled2;
use crate::trig::sin_scaled;
use crate::trig::spec_cos;
use crate::trig::spec_scaled;
use crate::trig::spec_scaled2;
use crate::trig::spec_sin;

verus! {

/// A point of space, in integer position units.
#[derive(Clone, Copy, Debug, PartialEq, Eq, Structural)]
pub struct Position3D {
    pub x: i64,
    pub y: i64,
    pub z: i64,
}

/// A spatial orientation: azimuth and declination, in whole degrees in
/// `[0, 360)` each.
#[derive(Clone, Copy, Debug, PartialEq, Eq, Structural)]
pub struct Bearing3D {
    pub azimuth: i64,
    pub declination: i64,
}

/// A line segment from `start` to `end`.
#[derive(Clone, Copy, Debug, PartialEq, Eq, Structural)]
pub struct Line3D {
    pub start: Position3D,
    pub end: Position3D,
}

impl Bearing3D {
    /// Both angles are whole degrees in `[0, 360)`.
    pub open spec fn wf(self) -> bool {
        0 <= self.azimuth < 360 && 0 <= self.declination < 360
    }

    /// The mirrored bearing: both angles negated, normalized.
    pub open spec fn spec_flip(self) -> Bearing3D {
        Bearing3D {
            azimuth: if self.azimuth == 0 { 0 } else { (360 - self.azimuth) as i64 },
            declination: if self.declination == 0 { 0 } else { (360 - self.declination) as i64 },
        }
    }

    /// This bearing turned by `delta`: both angles added independently,
    /// normalized.
    pub open spec fn spec_turned(self, delta: Bearing3D) -> Bearing3D {
        let a = self.azimuth + delta.azimuth;
        let d = self.declination + delta.declination;
        Bearing3D {
            azimuth: if a >= 360 { (a - 360) as i64 } else { a as i64 },
            declination: if d >= 360 { (d - 360) as i64 } else { d as i64 },
        }
    }

    /// Negates both angular components.
    pub fn flip(&self) -> (r: Bearing3D)
        requires
            self.wf(),
        ensures
            r == self.spec_flip(),
            r.wf(),
    {
        let a = if self.azimuth == 0 { 0 } else { 360 - self.azimuth };
        let d = if self.declination == 0 { 0 } else { 360 - self.declination };
        Bearing3D { azimuth: a, declination: d }
    }
}

/// Whether all three coordinates of `p` lie within `bound` in magnitude.
pub open spec fn pos_within3(p: Position3D, bound: int) -> bool {
    -bound <= p.x <= bound && -bound <= p.y <= bound && -bound <= p.z <= bound
}

/// The mathematical state of a spatial turtle: its pose and the saved
/// poses.
pub ghost struct TurtleState3D {
    pub position: Position3D,
    pub bearing: Bearing3D,
    pub stack: Seq<(Position3D, Bearing3D)>,
}

/// Whether the current position and every saved position of `s` lie within
/// `bound` in magnitude.
pub open spec fn state_within3(s: TurtleState3D, bound: int) -> bool {
    &&& pos_within3(s.position, bound)
    &&& forall|i: int| 0 <= i < s.stack.len() ==> pos_within3((#[trigger] s.stack[i]).0, bound)
}

/// The position reached by a step of length `dist` from `p` with azimuth
/// `az` and declination `de` degrees.
pub open spec fn spec_moved3(p: Position3D, dist: int, az: int, de: int) -> Position3D {
    Position3D {
        x: (p.x + spec_scaled2(dist, spec_cos(az), spec_sin(de))) as i64,
        y: (p.y + spec_scaled2(dist, spec_sin(az), spec_sin(de))) as i64,
        z: (p.z + spec_scaled(dist, spec_cos(de))) as i64,
    }
}

/// A spatial turtle: a cursor with position, bearing and a save stack.
pub struct Turtle3D {
    pub orientations: Vec<(Position3D, Bearing3D)>,
    pub current_position: Position3D,
    pub current_bearing: Bearing3D,
}

impl Turtle3D {
    /// The turtle's mathematical state.
    pub open spec fn state(self) -> TurtleState3D {
        TurtleState3D {
            position: self.current_position,
            bearing: self.current_bearing,
            stack: self.orientations@,
        }
    }

    /// The current bearing and every saved bearing are normalized.
    pub open spec fn wf(self) -> bool {
        &&& self.current_bearing.wf()
        &&& forall|i: int| 0 <= i < self.orientations@.len()
                ==> (#[trigger] self.orientations@[i]).1.wf()
    }

    /// A turtle at the origin, bearing zero, with an empty stack.
    pub fn new() -> (r: Turtle3D)
        ensures
            r.wf(),
            r.state() == (TurtleState3D {
                position: Position3D { x: 0, y: 0, z: 0 },
                bearing: Bearing3D { azimuth: 0, declination: 0 },
                stack: Seq::empty(),
            }),
    {
        Turtle3D {
            orientations: Vec::new(),
            current_position: Position3D { x: 0, y: 0, z: 0 },
            current_bearing: Bearing3D { azimuth: 0, declination: 0 },
        }
    }

    /// A turtle at `(x, y, z)` with the given angles and an empty stack.
    pub fn new_from(x: i64, y: i64, z: i64, azimuth: i64, declination: i64) -> (r: Turtle3D)
        requires
            0 <= azimuth < 360,
            0 <= declination < 360,
        ensures
            r.wf(),
            r.state() == (TurtleState3D {
                position: Position3D { x: x, y: y, z: z },
                bearing: Bearing3D { azimuth: azimuth, declination: declination },
                stack: Seq::empty(),
            }),
    {
        Turtle3D {
            orientations: Vec::new(),
            current_position: Position3D { x: x, y: y, z: z },
            current_bearing: Bearing3D { azimuth: azimuth, declination: declination },
        }
    }

    /// Moves `dist` units forward along the current bearing, in the
    /// spherical decomposition; bearing and stack are unchanged.
    pub fn move_forward(&mut self, dist: i64)
        requires
            old(self).wf(),
            -MAX_STEP <= dist <= MAX_STEP,
            pos_within3(old(self).current_position, COORD_LIMIT as int),
        ensures
            final(self).wf(),
            final(self).state() == (TurtleState3D {
                position: spec_moved3(
                    old(self).current_position,
                    dist as int,
                    old(self).current_bearing.azimuth as int,
                    old(self).current_bearing.declination as int,
                ),
                ..old(self).state()
            }),
    {
        let ca = cos_scaled(self.current_bearing.azimuth);
        let sa = sin_scaled(self.current_bearing.azimuth);
        let cd = cos_scaled(self.current_bearing.declination);
        let sd = sin_scaled(self.current_bearing.declination);
        let dx = scaled2(dist, ca, sd);
        let dy = scaled2(dist, sa, sd);
        let dz = scaled(dist, cd);
        self.current_position = Position3D {
            x: self.current_position.x + dx,
            y: self.current_position.y + dy,
            z: self.current_position.z + dz,
        };
    }

    /// Turns by `bearing`: adds its azimuth and declination independently,
    /// normalized; position and stack are unchanged.
    pub fn turn(&mut self, bearing: &Bearing3D)
        requires
            old(self).wf(),
            bearing.wf(),
        ensures
            final(self).wf(),
            final(self).state() == (TurtleState3D {
                bearing: old(self).current_bearing.spec_turned(*bearing),
                ..old(self).state()
            }),
    {
        let a = self.current_bearing.azimuth + bearing.azimuth;
        let d = self.current_bearing.declination + bearing.declination;
        self.current_bearing = Bearing3D {
            azimuth: if a >= 360 { a - 360 } else { a },
            declination: if d >= 360 { d - 360 } else { d },
        };
    }

    /// Saves the current pose on the stack.
    pub fn push(&mut self)
        requires
            old(self).wf(),
        ensures
            final(self).wf(),
            final(self).state() == (TurtleState3D {
                stack: old(self).state().stack.push(
                    (old(self).current_position, old(self).current_bearing),
                ),
                ..old(self).state()
            }),
    {
        self.orientations.push((self.current_position, self.current_bearing));
    }

    /// Restores the most recently saved pose, removing it from the stack;
    /// a silent no-op when the stack is empty.
    pub fn pop(&mut self)
        requires
            old(self).wf(),
        ensures
            final(self).wf(),
            old(self).orientations@.len() == 0 ==> final(self).state() == old(self).state(),
            old(self).orientations@.len() > 0 ==> final(self).state() == (TurtleState3D {
                position: old(self).orientations@.last().0,
                bearing: old(self).orientations@.last().1,
                stack: old(self).orientations@.drop_last(),
            }),
    {
        match self.orientations.pop() {
            Some(pb) => {
                self.current_position = pb.0;
                self.current_bearing = pb.1;
            }
            None => {}
        }
    }

    /// The current position.
    pub fn position(&self) -> (r: Position3D)
        ensures
            r == self.current_position,
    {
        self.current_position
    }

    /// The current bearing.
    pub fn bearing(&self) -> (r: Bearing3D)
        ensures
            r == self.current_bearing,
    {
        self.current_bearing
    }
}

/// A point of a spatial mapping run: the turtle's state together with the
/// segments and markers emitted so far.
pub ghost struct Trace3D {
    pub turtle: TurtleState3D,
    pub lines: Seq<Line3D>,
    pub markers: Seq<Position3D>,
}

/// The effect of one symbol on a trace, with `d` the move distance used if
/// the symbol is `F` and `brg` the policy's turn bearing; the symbols act
/// as in [`crate::geom2d::spec_step2`].
pub open spec fn spec_step3(d: i64, brg: Bearing3D, sym: char, t: Trace3D) -> Trace3D {
    if sym == 'F' {
        let moved = spec_moved3(t.turtle.position, d as int, t.turtle.bearing.azimuth as int,
            t.turtle.bearing.declination as int);
        Trace3D {
            turtle: TurtleState3D { position: moved, ..t.turtle },
            lines: t.lines.push(Line3D { start: t.turtle.position, end: moved }),
            markers: t.markers,
        }
    } else if sym == '+' {
        Trace3D {
            turtle: TurtleState3D { bearing: t.turtle.bearing.spec_turned(brg), ..t.turtle },
            ..t
        }
    } else if sym == '-' {
        Trace3D {
            turtle: TurtleState3D {
                bearing: t.turtle.bearing.spec_turned(brg.spec_flip()),
                ..t.turtle
            },
            ..t
        }
    } else if sym == '[' {
        Trace3D {
            turtle: TurtleState3D {
                stack: t.turtle.stack.push((t.turtle.position, t.turtle.bearing)),
                ..t.turtle
            },
            ..t
        }
    } else if sym == ']' {
        if t.turtle.stack.len() == 0 {
            t
        } else {
            Trace3D {
                turtle: TurtleState3D {
                    position: t.turtle.stack.last().0,
                    bearing: t.turtle.stack.last().1,
                    stack: t.turtle.stack.drop_last(),
                },
                ..t
            }
        }
    } else if sym == 'M' {
        Trace3D { markers: t.markers.push(t.turtle.position), ..t }
    } else {
        t
    }
}

/// The pure fold of a symbol sequence over a trace, with `ds[i]` the move
/// distance used at position `i`: the single-pass traversal that defines
/// what a spatial mapping run returns for given per-step distances.
pub open spec fn spec_map3(ds: Seq<i64>, brg: Bearing3D, syms: Seq<char>, t: Trace3D) -> Trace3D
    decreases syms.len(),
{
    if syms.len() == 0 {
        t
    } else {
        spec_map3(ds.drop_first(), brg, syms.drop_first(), spec_step3(ds[0], brg, syms[0], t))
    }
}

/// Folding one more symbol with one more distance applies one more step.
pub proof fn lemma_map3_snoc(ds: Seq<i64>, brg: Bearing3D, syms: Seq<char>, d: i64, sym: char, t: Trace3D)
    requires
        ds.len() == syms.len(),
    ensures
        spec_map3(ds.push(d), brg, syms.push(sym), t)
            == spec_step3(d, brg, sym, spec_map3(ds, brg, syms, t)),
    decreases syms.len(),
{
    if syms.len() == 0 {
        assert(syms.push(sym).drop_first() =~= syms);
        assert(ds.push(d).drop_first() =~= ds);
        assert(syms.push(sym)[0] == sym);
        assert(ds.push(d)[0] == d);
        assert(spec_map3(ds, brg, syms, spec_step3(d, brg, sym, t))
            == spec_step3(d, brg, sym, t));
        assert(spec_map3(ds, brg, syms, t) == t);
    } else {
        assert(syms.push(sym).drop_first() =~= syms.drop_first().push(sym));
        assert(ds.push(d).drop_first() =~= ds.drop_first().push(d));
        assert(syms.push(sym)[0] == syms[0]);
        assert(ds.push(d)[0] == ds[0]);
        lemma_map3_snoc(ds.drop_first(), brg, syms.drop_first(), d, sym,
            spec_step3(ds[0], brg, syms[0], t));
    }
}

/// A marker symbol never produces a line segment: it emits exactly one
/// marker, at the turtle's position, and leaves the turtle's position,
/// bearing and stack unchanged.
pub proof fn lemma_marker_step3(d: i64, brg: Bearing3D, t: Trace3D)
    ensures
        spec_step3(d, brg, 'M', t).turtle == t.turtle,
        spec_step3(d, brg, 'M', t).lines == t.lines,
        spec_step3(d, brg, 'M', t).markers == t.markers.push(t.turtle.position),
{
}

/// A closing bracket on an empty stack is a silent no-op: it does not
/// fault and alters nothing.
pub proof fn lemma_pop_on_empty_is_noop3(d: i64, brg: Bearing3D, t: Trace3D)
    requires
        t.turtle.stack.len() == 0,
    ensures
        spec_step3(d, brg, ']', t) == t,
{
}

/// Folding a concatenation folds the two halves in order, splitting the
/// distances at the same point.
pub proof fn lemma_map3_concat(
    ds_a: Seq<i64>,
    ds_b: Seq<i64>,
    brg: Bearing3D,
    a: Seq<char>,
    b: Seq<char>,
    t: Trace3D,
)
    requires
        ds_a.len() == a.len(),
    ensures
        spec_map3(ds_a + ds_b, brg, a + b, t)
            == spec_map3(ds_b, brg, b, spec_map3(ds_a, brg, a, t)),
    decreases a.len(),
{
    if a.len() == 0 {
        assert(a + b =~= b);
        assert(ds_a + ds_b =~= ds_b);
    } else {
        assert((a + b)[0] == a[0]);
        assert((ds_a + ds_b)[0] == ds_a[0]);
        assert((a + b).drop_first() =~= a.drop_first() + b);
        assert((ds_a + ds_b).drop_first() =~= ds_a.drop_first() + ds_b);
        lemma_map3_concat(ds_a.drop_first(), ds_b, brg, a.drop_first(), b,
            spec_step3(ds_a[0], brg, a[0], t));
    }
}

/// Symbols other than the two brackets leave the save stack unchanged, so
/// a bracket-free sequence folds without touching it.
pub proof fn lemma_no_brackets_keeps_stack3(ds: Seq<i64>, brg: Bearing3D, syms: Seq<char>, t: Trace3D)
    requires
        forall|i: int| 0 <= i < syms.len() ==> #[trigger] syms[i] != '[' && syms[i] != ']',
    ensures
        spec_map3(ds, brg, syms, t).turtle.stack == t.turtle.stack,
    decreases syms.len(),
{
    if syms.len() > 0 {
        assert(syms[0] != '[' && syms[0] != ']');
        lemma_no_brackets_keeps_stack3(ds.drop_first(), brg, syms.drop_first(),
            spec_step3(ds[0], brg, syms[0], t));
    }
}

/// Branch round trip: a bracketed, bracket-free subsequence restores the
/// pose, whatever distances its forward steps drew.
pub proof fn lemma_bracket_round_trip3(
    d_open: i64,
    ds_w: Seq<i64>,
    d_close: i64,
    brg: Bearing3D,
    w: Seq<char>,
    t: Trace3D,
)
    requires
        ds_w.len() == w.len(),
        forall|i: int| 0 <= i < w.len() ==> #[trigger] w[i] != '[' && w[i] != ']',
    ensures
        spec_map3(seq![d_open] + ds_w + seq![d_close], brg, seq!['['] + w + seq![']'], t).turtle
            == t.turtle,
{
    let opened = spec_step3(d_open, brg, '[', t);
    lemma_map3_concat(seq![d_open] + ds_w, seq![d_close], brg, seq!['['] + w, seq![']'], t);
    lemma_map3_concat(seq![d_open], ds_w, brg, seq!['['], w, t);
    assert(spec_map3(seq![d_open], brg, seq!['['], t) == opened) by {
        assert(seq!['['].drop_first() =~= Seq::<char>::empty());
        assert(seq!['['][0] == '[');
        assert(spec_map3(seq![d_open].drop_first(), brg, Seq::<char>::empty(), opened) == opened);
    }
    let after_w = spec_map3(ds_w, brg, w, opened);
    lemma_no_brackets_keeps_stack3(ds_w, brg, w, opened);
    assert(after_w.turtle.stack == t.turtle.stack.push((t.turtle.position, t.turtle.bearing)));
    assert(spec_map3(seq![d_close], brg, seq![']'], after_w)
        == spec_step3(d_close, brg, ']', after_w)) by {
        assert(seq![']'].drop_first() =~= Seq::<char>::empty());
        assert(seq![']'][0] == ']');
        assert(spec_map3(seq![d_close].drop_first(), brg, Seq::<char>::empty(),
            spec_step3(d_close, brg, ']', after_w)) == spec_step3(d_close, brg, ']', after_w));
    }
    assert(after_w.turtle.stack.last() == (t.turtle.position, t.turtle.bearing));
    assert(after_w.turtle.stack.drop_last() =~= t.turtle.stack);
}

/// The drawing policy of the spatial mapper: a base move distance, a fixed
/// turn bearing, and a jitter width.  Every forward step moves by the base
/// distance plus a fresh draw below `jitter`.
pub struct PlantDrawer3D {
    pub move_distance: i64,
    pub move_bearing: Bearing3D,
    pub jitter: i64,
}

impl PlantDrawer3D {
    /// The base distance is non-negative, the jitter width positive, every
    /// jittered distance fits one turtle step, and the bearing is
    /// normalized.
    pub open spec fn wf(self) -> bool {
        &&& 0 <= self.move_distance
        &&& 1 <= self.jitter
        &&& self.move_distance + self.jitter <= MAX_STEP
        &&& self.move_bearing.wf()
    }

    /// One jittered move distance: the base distance plus a fresh draw
    /// below the jitter width.
    pub fn get_move_distance(&self, source: &mut RandomSource) -> (d: i64)
        requires
            self.wf(),
        ensures
            self.move_distance <= d < self.move_distance + self.jitter,
    {
        let extra = source.next_below(self.jitter as u64);
        self.move_distance + (extra as i64)
    }

    /// The policy's turn bearing.
    pub fn get_move_bearing(&self) -> (b: Bearing3D)
        ensures
            b == self.move_bearing,
    {
        self.move_bearing
    }

    /// Deterministic core of the spatial mapper: with the move distance for
    /// each input position given as an argument, the output is exactly the
    /// pure fold [`spec_map3`], a function of the inputs alone.
    pub fn map_with_distances(
        &self,
        input: &Vec<char>,
        distances: &Vec<i64>,
        turtle: &mut Turtle3D,
    ) -> (out: (Vec<Line3D>, Vec<Position3D>))
        requires
            self.wf(),
            old(turtle).wf(),
            state_within3(old(turtle).state(), POS_LIMIT as int),
            input@.len() <= MAX_SYMS,
            distances@.len() == input@.len(),
            forall|k: int| 0 <= k < distances@.len()
                ==> -MAX_STEP <= #[trigger] distances@[k] <= MAX_STEP,
        ensures
            final(turtle).wf(),
            ({
                let tr = spec_map3(distances@, self.move_bearing, input@,
                    Trace3D {
                        turtle: old(turtle).state(),
                        lines: Seq::empty(),
                        markers: Seq::empty(),
                    });
                &&& final(turtle).state() == tr.turtle
                &&& out.0@ == tr.lines
                &&& out.1@ == tr.markers
            }),
    {
        let mut lines: Vec<Line3D> = Vec::new();
        let mut markers: Vec<Position3D> = Vec::new();
        let ghost init = Trace3D {
            turtle: old(turtle).state(),
            lines: Seq::empty(),
            markers: Seq::empty(),
        };
        let n = input.len();
        proof {
            assert(input@.take(0) =~= Seq::<char>::empty());
            assert(distances@.take(0) =~= Seq::<i64>::empty());
        }
        let mut i: usize = 0;
        while i < n
            invariant
                i <= n,
                n == input@.len(),
                n <= MAX_SYMS,
                distances@.len() == n,
                forall|k: int| 0 <= k < distances@.len()
                    ==> -MAX_STEP <= #[trigger] distances@[k] <= MAX_STEP,
                self.wf(),
                turtle.wf(),
                state_within3(turtle.state(), POS_LIMIT + (i as int) * (MAX_STEP as int)),
                (Trace3D { turtle: turtle.state(), lines: lines@, markers: markers@ })
                    == spec_map3(distances@.take(i as int), self.move_bearing,
                        input@.take(i as int), init),
            decreases n - i,
        {
            proof {
                assert(input@.take(i + 1 as int)
                    =~= input@.take(i as int).push(input@[i as int]));
                assert(distances@.take(i + 1 as int)
                    =~= distances@.take(i as int).push(distances@[i as int]));
                lemma_map3_snoc(distances@.take(i as int), self.move_bearing,
                    input@.take(i as int), distances@[i as int], input@[i as int], init);
                assert(POS_LIMIT + (i as int) * (MAX_STEP as int)
                    <= POS_LIMIT + (MAX_SYMS as int) * (MAX_STEP as int));
            }
            let c = input[i];
            if c == 'F' {
                let start = turtle.position();
                proof {
                    lemma_sin_cos_bounds(turtle.state().bearing.azimuth as int);
                    lemma_sin_cos_bounds(turtle.state().bearing.declination as int);
                    lemma_spec_scaled2_bound(distances@[i as int] as int,
                        spec_cos(turtle.state().bearing.azimuth as int),
                        spec_sin(turtle.state().bearing.declination as int));
                    lemma_spec_scaled2_bound(distances@[i as int] as int,
                        spec_sin(turtle.state().bearing.azimuth as int),
                        spec_sin(turtle.state().bearing.declination as int));
                    lemma_spec_scaled_bound(distances@[i as int] as int,
                        spec_cos(turtle.state().bearing.declination as int));
                }
                turtle.move_forward(distances[i]);
                let end = turtle.position();
                lines.push(Line3D { start: start, end: end });
            } else if c == '-' {
                let b = self.get_move_bearing().flip();
                turtle.turn(&b);
            } else if c == '+' {
                let b = self.get_move_bearing();
                turtle.turn(&b);
            } else if c == '[' {
                turtle.push();
            } else if c == ']' {
                turtle.pop();
            } else if c == 'M' {
                markers.push(turtle.position());
            }
            i += 1;
        }
        proof {
            assert(input@.take(n as int) =~= input@);
            assert(distances@.take(n as int) =~= distances@);
        }
        (lines, markers)
    }

    /// Walks `input` once, drawing a fresh jittered distance from `source`
    /// for every forward step: the output is the pure fold [`spec_map3`]
    /// under some sequence of per-step distances, each within the policy's
    /// jitter range.
    pub fn map(
        &self,
        input: &Vec<char>,
        turtle: &mut Turtle3D,
        source: &mut RandomSource,
    ) -> (out: (Vec<Line3D>, Vec<Position3D>))
        requires
            self.wf(),
            old(turtle).wf(),
            state_within3(old(turtle).state(), POS_LIMIT as int),
            input@.len() <= MAX_SYMS,
        ensures
            final(turtle).wf(),
            exists|ds: Seq<i64>|
                {
                    &&& ds.len() == input@.len()
                    &&& (forall|k: int| 0 <= k < ds.len()
                            ==> self.move_distance <= #[trigger] ds[k]
                                < self.move_distance + self.jitter)
                    &&& ({
                        let tr = #[trigger] spec_map3(ds, self.move_bearing, input@,
                            Trace3D {
                                turtle: old(turtle).state(),
                                lines: Seq::empty(),
                                markers: Seq::empty(),
                            });
                        &&& final(turtle).state() == tr.turtle
                        &&& out.0@ == tr.lines
                        &&& out.1@ == tr.markers
                    })
                },
    {
        let mut distances: Vec<i64> = Vec::new();
        let n = input.len();
        let mut i: usize = 0;
        while i < n
            invariant
                i <= n,
                n == input@.len(),
                self.wf(),
                distances@.len() == i,
                forall|k: int| 0 <= k < distances@.len()
                    ==> self.move_distance <= #[trigger] distances@[k]
                        < self.move_distance + self.jitter,
            decreases n - i,
        {
            if input[i] == 'F' {
                distances.push(self.get_move_distance(source));
            } else {
                distances.push(self.move_distance);
            }
            i += 1;
        }
        let out = self.map_with_distances(input, &distances, turtle);
        out
    }
}

} // verus!
