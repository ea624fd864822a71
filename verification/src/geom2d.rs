//! Planar turtle graphics: positions, bearings, a turtle with a save
//! stack, and the mapper that turns a symbol sequence into line segments
//! and markers.
//!
//! Coordinates are integer position units; bearings are whole degrees in
//! `[0, 360)`; a forward step displaces by the fixed-point cosine and sine
//! of the current bearing (see [`crate::trig`]).

use vstd::prelude::*;
use crate::trig::COORD_LIMIT;
use crate::trig::MAX_STEP;
use crate::trig::MAX_SYMS;
use crate::trig::POS_LIMIT;
use crate::trig::cos_scaled;
use crate::trig::lemma_sin_cos_bounds;
use crate::trig::lemma_spec_scaled_bound;
use crate::trig::scaled;
use crate::trig::sin_scaled;
use crate::trig::spec_cos;
use crate::trig::spec_scaled;
use crate::trig::spec_sin;

verus! {

/// A point of the plane, in integer position units.
#[derive(Clone, Copy, Debug, PartialEq, Eq, Structural)]
pub struct Position2D {
    pub x: i64,
    pub y: i64,
}

/// A planar orientation: one rotation, in whole degrees in `[0, 360)`.
#[derive(Clone, Copy, Debug, PartialEq, Eq, Structural)]
pub struct Bearing2D {
    pub rotation: i64,
}

/// A line segment from `start` to `end`.
#[derive(Clone, Copy, Debug, PartialEq, Eq, Structural)]
pub struct Line2D {
    pub start: Position2D,
    pub end: Position2D,
}

impl Bearing2D {
    /// The rotation is a whole number of degrees in `[0, 360)`.
    pub open spec fn wf(self) -> bool {
        0 <= self.rotation < 360
    }

    /// The mirrored bearing: the negated rotation, normalized.
    pub open spec fn spec_flip(self) -> Bearing2D {
        Bearing2D { rotation: if self.rotation == 0 { 0 } else { (360 - self.rotation) as i64 } }
    }

    /// This bearing turned by `delta`, normalized.
    pub open spec fn spec_turned(self, delta: Bearing2D) -> Bearing2D {
        let s = self.rotation + delta.rotation;
        Bearing2D { rotation: if s >= 360 { (s - 360) as i64 } else { s as i64 } }
    }

    /// Negates the angular component: a turn by the flipped bearing is the
    /// mirror of a turn by the bearing itself.
    pub fn flip(&self) -> (r: Bearing2D)
        requires
            self.wf(),
        ensures
            r == self.spec_flip(),
            r.wf(),
    {
        if self.rotation == 0 {
            Bearing2D { rotation: 0 }
        } else {
            Bearing2D { rotation: 360 - self.rotation }
        }
    }
}

/// Whether both coordinates of `p` lie within `bound` in magnitude.
pub open spec fn pos_within(p: Position2D, bound: int) -> bool {
    -bound <= p.x <= bound && -bound <= p.y <= bound
}

/// The mathematical state of a planar turtle: its pose and the saved poses.
pub ghost struct TurtleState2D {
    pub position: Position2D,
    pub bearing: Bearing2D,
    pub stack: Seq<(Position2D, Bearing2D)>,
}

/// Whether the current position and every saved position of `s` lie within
/// `bound` in magnitude.
pub open spec fn state_within(s: TurtleState2D, bound: int) -> bool {
    &&& pos_within(s.position, bound)
    &&& forall|i: int| 0 <= i < s.stack.len() ==> pos_within((#[trigger] s.stack[i]).0, bound)
}

/// The position reached by a step of length `dist` from `p` with bearing
/// `rot` degrees.
pub open spec fn spec_moved(p: Position2D, dist: int, rot: int) -> Position2D {
    Position2D {
        x: (p.x + spec_scaled(dist, spec_cos(rot))) as i64,
        y: (p.y + spec_scaled(dist, spec_sin(rot))) as i64,
    }
}

/// A planar turtle: a cursor with position, bearing and a save stack.
pub struct Turtle2D {
    pub orientations: Vec<(Position2D, Bearing2D)>,
    pub current_position: Position2D,
    pub current_bearing: Bearing2D,
}

impl Turtle2D {
    /// The turtle's mathematical state.
    pub open spec fn state(self) -> TurtleState2D {
        TurtleState2D {
            position: self.current_position,
            bearing: self.current_bearing,
            stack: self.orientations@,
        }
    }

    /// The current bearing and every saved bearing are normalized.
    pub open spec fn wf(self) -> bool {
        &&& self.current_bearing.wf()
        &&& forall|i: int| 0 <= i < self.orientations@.len()
                ==> (#[trigger] self.orientations@[i]).1.wf()
    }

    /// A turtle at the origin, bearing zero, with an empty stack.
    pub fn new() -> (r: Turtle2D)
        ensures
            r.wf(),
            r.state() == (TurtleState2D {
                position: Position2D { x: 0, y: 0 },
                bearing: Bearing2D { rotation: 0 },
                stack: Seq::empty(),
            }),
    {
        Turtle2D {
            orientations: Vec::new(),
            current_position: Position2D { x: 0, y: 0 },
            current_bearing: Bearing2D { rotation: 0 },
        }
    }

    /// A turtle at `(x, y)` with bearing `rotation` degrees and an empty
    /// stack.
    pub fn new_from(x: i64, y: i64, rotation: i64) -> (r: Turtle2D)
        requires
            0 <= rotation < 360,
        ensures
            r.wf(),
            r.state() == (TurtleState2D {
                position: Position2D { x: x, y: y },
                bearing: Bearing2D { rotation: rotation },
                stack: Seq::empty(),
            }),
    {
        Turtle2D {
            orientations: Vec::new(),
            current_position: Position2D { x: x, y: y },
            current_bearing: Bearing2D { rotation: rotation },
        }
    }

    /// Moves `dist` units forward along the current bearing: the new
    /// position is displaced by the fixed-point cosine and sine of the
    /// bearing; bearing and stack are unchanged.
    pub fn move_forward(&mut self, dist: i64)
        requires
            old(self).wf(),
            -MAX_STEP <= dist <= MAX_STEP,
            pos_within(old(self).current_position, COORD_LIMIT as int),
        ensures
            final(self).wf(),
            final(self).state() == (TurtleState2D {
                position: spec_moved(
                    old(self).current_position,
                    dist as int,
                    old(self).current_bearing.rotation as int,
                ),
                ..old(self).state()
            }),
    {
        let c = cos_scaled(self.current_bearing.rotation);
        let s = sin_scaled(self.current_bearing.rotation);
        let dx = scaled(dist, c);
        let dy = scaled(dist, s);
        self.current_position = Position2D {
            x: self.current_position.x + dx,
            y: self.current_position.y + dy,
        };
    }

    /// Turns by `bearing`: adds its rotation to the turtle's, normalized;
    /// position and stack are unchanged.
    pub fn turn(&mut self, bearing: &Bearing2D)
        requires
            old(self).wf(),
            bearing.wf(),
        ensures
            final(self).wf(),
            final(self).state() == (TurtleState2D {
                bearing: old(self).current_bearing.spec_turned(*bearing),
                ..old(self).state()
            }),
    {
        let s = self.current_bearing.rotation + bearing.rotation;
        self.current_bearing = Bearing2D { rotation: if s >= 360 { s - 360 } else { s } };
    }

    /// Saves the current pose on the stack.
    pub fn push(&mut self)
        requires
            old(self).wf(),
        ensures
            final(self).wf(),
            final(self).state() == (TurtleState2D {
                stack: old(self).state().stack.push(
                    (old(self).current_position, old(self).current_bearing),
                ),
                ..old(self).state()
            }),
    {
        self.orientations.push((self.current_position, self.current_bearing));
    }

    /// Restores the most recently saved pose, removing it from the stack;
    /// a silent no-op when the stack is empty.
    pub fn pop(&mut self)
        requires
            old(self).wf(),
        ensures
            final(self).wf(),
            old(self).orientations@.len() == 0 ==> final(self).state() == old(self).state(),
            old(self).orientations@.len() > 0 ==> final(self).state() == (TurtleState2D {
                position: old(self).orientations@.last().0,
                bearing: old(self).orientations@.last().1,
                stack: old(self).orientations@.drop_last(),
            }),
    {
        match self.orientations.pop() {
            Some(pb) => {
                self.current_position = pb.0;
                self.current_bearing = pb.1;
            }
            None => {}
        }
    }

    /// The current position.
    pub fn position(&self) -> (r: Position2D)
        ensures
            r == self.current_position,
    {
        self.current_position
    }

    /// The current bearing.
    pub fn bearing(&self) -> (r: Bearing2D)
        ensures
            r == self.current_bearing,
    {
        self.current_bearing
    }
}

/// A point of a geometry mapping run: the turtle's state together with the
/// segments and markers emitted so far.
pub ghost struct Trace2D {
    pub turtle: TurtleState2D,
    pub lines: Seq<Line2D>,
    pub markers: Seq<Position2D>,
}

/// The effect of one symbol on a trace, under a policy of move distance
/// `dist` and turn bearing `brg`:
/// `F` records a segment from the old to the new position;
/// `+` turns by `brg` and `-` by the flipped `brg`;
/// `[` saves the pose and `]` restores the saved pose (a no-op on an empty
/// stack); `M` emits a marker at the current position and moves nothing;
/// every other symbol leaves the trace unchanged.
pub open spec fn spec_step2(dist: i64, brg: Bearing2D, sym: char, t: Trace2D) -> Trace2D {
    if sym == 'F' {
        let moved = spec_moved(t.turtle.position, dist as int, t.turtle.bearing.rotation as int);
        Trace2D {
            turtle: TurtleState2D { position: moved, ..t.turtle },
            lines: t.lines.push(Line2D { start: t.turtle.position, end: moved }),
            markers: t.markers,
        }
    } else if sym == '+' {
        Trace2D {
            turtle: TurtleState2D { bearing: t.turtle.bearing.spec_turned(brg), ..t.turtle },
            ..t
        }
    } else if sym == '-' {
        Trace2D {
            turtle: TurtleState2D {
                bearing: t.turtle.bearing.spec_turned(brg.spec_flip()),
                ..t.turtle
            },
            ..t
        }
    } else if sym == '[' {
        Trace2D {
            turtle: TurtleState2D {
                stack: t.turtle.stack.push((t.turtle.position, t.turtle.bearing)),
                ..t.turtle
            },
            ..t
        }
    } else if sym == ']' {
        if t.turtle.stack.len() == 0 {
            t
        } else {
            Trace2D {
                turtle: TurtleState2D {
                    position: t.turtle.stack.last().0,
                    bearing: t.turtle.stack.last().1,
                    stack: t.turtle.stack.drop_last(),
                },
                ..t
            }
        }
    } else if sym == 'M' {
        Trace2D { markers: t.markers.push(t.turtle.position), ..t }
    } else {
        t
    }
}

/// The pure fold of a whole symbol sequence over a trace: the single-pass
/// traversal that defines what a geometry mapping run returns.
pub open spec fn spec_map2(dist: i64, brg: Bearing2D, syms: Seq<char>, t: Trace2D) -> Trace2D
    decreases syms.len(),
{
    if syms.len() == 0 {
        t
    } else {
        spec_map2(dist, brg, syms.drop_first(), spec_step2(dist, brg, syms[0], t))
    }
}

/// Folding one more symbol applies one more step.
pub proof fn lemma_map2_snoc(dist: i64, brg: Bearing2D, syms: Seq<char>, sym: char, t: Trace2D)
    ensures
        spec_map2(dist, brg, syms.push(sym), t)
            == spec_step2(dist, brg, sym, spec_map2(dist, brg, syms, t)),
    decreases syms.len(),
{
    if syms.len() == 0 {
        assert(syms.push(sym).drop_first() =~= syms);
        assert(syms.push(sym)[0] == sym);
        assert(spec_map2(dist, brg, syms, spec_step2(dist, brg, sym, t))
            == spec_step2(dist, brg, sym, t));
        assert(spec_map2(dist, brg, syms, t) == t);
    } else {
        assert(syms.push(sym).drop_first() =~= syms.drop_first().push(sym));
        assert(syms.push(sym)[0] == syms[0]);
        lemma_map2_snoc(dist, brg, syms.drop_first(), sym, spec_step2(dist, brg, syms[0], t));
    }
}

/// A marker symbol never produces a line segment: it emits exactly one
/// marker, at the turtle's position, and leaves the turtle's position,
/// bearing and stack unchanged.
pub proof fn lemma_marker_step2(dist: i64, brg: Bearing2D, t: Trace2D)
    ensures
        spec_step2(dist, brg, 'M', t).turtle == t.turtle,
        spec_step2(dist, brg, 'M', t).lines == t.lines,
        spec_step2(dist, brg, 'M', t).markers == t.markers.push(t.turtle.position),
{
}

/// A closing bracket on an empty stack is a silent no-op: it does not
/// fault and alters nothing.
pub proof fn lemma_pop_on_empty_is_noop2(dist: i64, brg: Bearing2D, t: Trace2D)
    requires
        t.turtle.stack.len() == 0,
    ensures
        spec_step2(dist, brg, ']', t) == t,
{
}

/// Symbols other than the two brackets leave the save stack unchanged, so
/// a bracket-free sequence folds without touching it.
pub proof fn lemma_no_brackets_keeps_stack2(dist: i64, brg: Bearing2D, syms: Seq<char>, t: Trace2D)
    requires
        forall|i: int| 0 <= i < syms.len() ==> #[trigger] syms[i] != '[' && syms[i] != ']',
    ensures
        spec_map2(dist, brg, syms, t).turtle.stack == t.turtle.stack,
    decreases syms.len(),
{
    if syms.len() > 0 {
        assert(syms[0] != '[' && syms[0] != ']');
        lemma_no_brackets_keeps_stack2(dist, brg, syms.drop_first(), spec_step2(dist, brg, syms[0], t));
    }
}

/// Folding a concatenation folds the two halves in order.
pub proof fn lemma_map2_concat(dist: i64, brg: Bearing2D, a: Seq<char>, b: Seq<char>, t: Trace2D)
    ensures
        spec_map2(dist, brg, a + b, t) == spec_map2(dist, brg, b, spec_map2(dist, brg, a, t)),
    decreases a.len(),
{
    if a.len() == 0 {
        assert(a + b =~= b);
    } else {
        assert((a + b)[0] == a[0]);
        assert((a + b).drop_first() =~= a.drop_first() + b);
        lemma_map2_concat(dist, brg, a.drop_first(), b, spec_step2(dist, brg, a[0], t));
    }
}

/// Branch round trip: a bracketed, bracket-free subsequence restores the
/// pose.  After folding `[`, then any sequence without brackets, then `]`,
/// the turtle's position, bearing and stack are exactly what they were
/// before the branch.
pub proof fn lemma_bracket_round_trip2(dist: i64, brg: Bearing2D, w: Seq<char>, t: Trace2D)
    requires
        forall|i: int| 0 <= i < w.len() ==> #[trigger] w[i] != '[' && w[i] != ']',
    ensures
        spec_map2(dist, brg, seq!['['] + w + seq![']'], t).turtle == t.turtle,
{
    let opened = spec_step2(dist, brg, '[', t);
    lemma_map2_concat(dist, brg, seq!['['] + w, seq![']'], t);
    lemma_map2_concat(dist, brg, seq!['['], w, t);
    assert(spec_map2(dist, brg, seq!['['], t) == opened) by {
        assert(seq!['['].drop_first() =~= Seq::<char>::empty());
        assert(seq!['['][0] == '[');
        assert(spec_map2(dist, brg, Seq::<char>::empty(), opened) == opened);
    }
    let after_w = spec_map2(dist, brg, w, opened);
    lemma_no_brackets_keeps_stack2(dist, brg, w, opened);
    assert(after_w.turtle.stack == t.turtle.stack.push((t.turtle.position, t.turtle.bearing)));
    assert(spec_map2(dist, brg, seq![']'], after_w) == spec_step2(dist, brg, ']', after_w)) by {
        assert(seq![']'].drop_first() =~= Seq::<char>::empty());
        assert(seq![']'][0] == ']');
        assert(spec_map2(dist, brg, Seq::<char>::empty(), spec_step2(dist, brg, ']', after_w))
            == spec_step2(dist, brg, ']', after_w));
    }
    assert(after_w.turtle.stack.last() == (t.turtle.position, t.turtle.bearing));
    assert(after_w.turtle.stack.drop_last() =~= t.turtle.stack);
}

/// The sequence with every closing bracket removed, order preserved.
pub open spec fn without_closers(syms: Seq<char>) -> Seq<char>
    decreases syms.len(),
{
    if syms.len() == 0 {
        Seq::empty()
    } else if syms[0] == ']' {
        without_closers(syms.drop_first())
    } else {
        seq![syms[0]] + without_closers(syms.drop_first())
    }
}

/// Extra closing brackets are absorbed: with an empty save stack and no
/// opening bracket in the sequence, the fold equals the fold of the same
/// sequence with every closing bracket removed, so the closers alter
/// neither position nor bearing nor output.
pub proof fn lemma_extra_closers_ignored2(dist: i64, brg: Bearing2D, syms: Seq<char>, t: Trace2D)
    requires
        t.turtle.stack.len() == 0,
        forall|i: int| 0 <= i < syms.len() ==> #[trigger] syms[i] != '[',
    ensures
        spec_map2(dist, brg, syms, t) == spec_map2(dist, brg, without_closers(syms), t),
    decreases syms.len(),
{
    if syms.len() > 0 {
        let stepped = spec_step2(dist, brg, syms[0], t);
        if syms[0] == ']' {
            assert(stepped == t);
            lemma_extra_closers_ignored2(dist, brg, syms.drop_first(), t);
        } else {
            assert(stepped.turtle.stack == t.turtle.stack);
            lemma_extra_closers_ignored2(dist, brg, syms.drop_first(), stepped);
            lemma_map2_concat(dist, brg, seq![syms[0]], without_closers(syms.drop_first()), t);
            assert(spec_map2(dist, brg, seq![syms[0]], t) == stepped) by {
                assert(seq![syms[0]].drop_first() =~= Seq::<char>::empty());
                assert(seq![syms[0]][0] == syms[0]);
                assert(spec_map2(dist, brg, Seq::<char>::empty(), stepped) == stepped);
            }
        }
    }
}

/// The drawing policy of the planar mapper: a fixed move distance and a
/// fixed turn bearing.
pub struct PlantDrawer2D {
    pub move_distance: i64,
    pub move_bearing: Bearing2D,
}

impl PlantDrawer2D {
    /// The distance fits one turtle step and the bearing is normalized.
    pub open spec fn wf(self) -> bool {
        &&& -MAX_STEP <= self.move_distance <= MAX_STEP
        &&& self.move_bearing.wf()
    }

    /// The policy's move distance; fixed for the whole run.
    pub fn get_move_distance(&self) -> (d: i64)
        ensures
            d == self.move_distance,
    {
        self.move_distance
    }

    /// The policy's turn bearing.
    pub fn get_move_bearing(&self) -> (b: Bearing2D)
        ensures
            b == self.move_bearing,
    {
        self.move_bearing
    }

    /// Walks `input` once, driving `turtle` through it, and returns the
    /// ordered line segments and the ordered markers: exactly the pure fold
    /// [`spec_map2`] of the input over the turtle's starting state.
    pub fn map(&self, input: &Vec<char>, turtle: &mut Turtle2D) -> (out: (Vec<Line2D>, Vec<Position2D>))
        requires
            self.wf(),
            old(turtle).wf(),
            state_within(old(turtle).state(), POS_LIMIT as int),
            input@.len() <= MAX_SYMS,
        ensures
            final(turtle).wf(),
            ({
                let tr = spec_map2(self.move_distance, self.move_bearing, input@,
                    Trace2D {
                        turtle: old(turtle).state(),
                        lines: Seq::empty(),
                        markers: Seq::empty(),
                    });
                &&& final(turtle).state() == tr.turtle
                &&& out.0@ == tr.lines
                &&& out.1@ == tr.markers
            }),
    {
        let mut lines: Vec<Line2D> = Vec::new();
        let mut markers: Vec<Position2D> = Vec::new();
        let ghost init = Trace2D {
            turtle: old(turtle).state(),
            lines: Seq::empty(),
            markers: Seq::empty(),
        };
        let n = input.len();
        proof {
            assert(input@.take(0) =~= Seq::<char>::empty());
        }
        let mut i: usize = 0;
        while i < n
            invariant
                i <= n,
                n == input@.len(),
                n <= MAX_SYMS,
                self.wf(),
                turtle.wf(),
                state_within(turtle.state(), POS_LIMIT + (i as int) * (MAX_STEP as int)),
                (Trace2D { turtle: turtle.state(), lines: lines@, markers: markers@ })
                    == spec_map2(self.move_distance, self.move_bearing, input@.take(i as int), init),
            decreases n - i,
        {
            proof {
                assert(input@.take(i + 1 as int)
                    =~= input@.take(i as int).push(input@[i as int]));
                lemma_map2_snoc(self.move_distance, self.move_bearing, input@.take(i as int),
                    input@[i as int], init);
                assert(POS_LIMIT + (i as int) * (MAX_STEP as int)
                    <= POS_LIMIT + (MAX_SYMS as int) * (MAX_STEP as int));
            }
            let c = input[i];
            if c == 'F' {
                let start = turtle.position();
                proof {
                    lemma_sin_cos_bounds(turtle.state().bearing.rotation as int);
                    lemma_spec_scaled_bound(self.move_distance as int,
                        spec_cos(turtle.state().bearing.rotation as int));
                    lemma_spec_scaled_bound(self.move_distance as int,
                        spec_sin(turtle.state().bearing.rotation as int));
                }
                turtle.move_forward(self.move_distance);
                let end = turtle.position();
                lines.push(Line2D { start: start, end: end });
            } else if c == '-' {
                let b = self.get_move_bearing().flip();
                turtle.turn(&b);
            } else if c == '+' {
                let b = self.get_move_bearing();
                turtle.turn(&b);
            } else if c == '[' {
                turtle.push();
            } else if c == ']' {
                turtle.pop();
            } else if c == 'M' {
                markers.push(turtle.position());
            }
            i += 1;
        }
        proof {
            assert(input@.take(n as int) =~= input@);
        }
        (lines, markers)
    }
}

} // verus!
