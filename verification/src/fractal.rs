//! The fractal of the chaos game: a set of vertices, a jump ratio, and the
//! path that a tracer leaves when it jumps towards one vertex after another.

use vstd::prelude::*;
use crate::fixed::{
    clamp_unit, lemma_round_div_monotonic, lemma_round_div_multiple, round_div, round_div_i128,
    round_to_spec, round_to_wide, saturate_i128, ONE,
};
use crate::geometry::Point;
use crate::random::draw_index;

verus! {

/// The jump ratio of a blank fractal: one half.
pub const DEFAULT_JUMP: i64 = 500_000;

/// The first coordinate of the point at which every tracer sets out.
pub const START_X: i64 = 500_000_000;

/// The second coordinate of the point at which every tracer sets out.
pub const START_Y: i64 = 500_000_000;

/// A fractal: its vertices, the path of the last walk, its jump ratio and two
/// switches that say what is to be drawn.
#[derive(Clone, Debug)]
pub struct Fractal {
    pub vertices: Vec<Point>,
    pub path: Vec<(Point, Point)>,
    pub jump_size: i64,
    pub render_vertices: bool,
    pub render_points: bool,
}

/// What a fractal holds, as mathematical values.
pub struct FractalView {
    pub vertices: Seq<Point>,
    pub path: Seq<(Point, Point)>,
    pub jump_size: int,
    pub render_vertices: bool,
    pub render_points: bool,
}

impl View for Fractal {
    type V = FractalView;

    open spec fn view(&self) -> FractalView {
        FractalView {
            vertices: self.vertices@,
            path: self.path@,
            jump_size: self.jump_size as int,
            render_vertices: self.render_vertices,
            render_points: self.render_points,
        }
    }
}

/// The point at which every tracer sets out.
pub open spec fn tracer_start() -> Point {
    Point(START_X, START_Y)
}

/// A fractal without vertices and without a path, with the default jump ratio
/// and both switches on.
pub open spec fn blank_view() -> FractalView {
    FractalView {
        vertices: Seq::empty(),
        path: Seq::empty(),
        jump_size: DEFAULT_JUMP as int,
        render_vertices: true,
        render_points: true,
    }
}

/// The jump ratio that suits `n` vertices: `n / (n + 3)`, to the nearest
/// millionth.
pub open spec fn optimal_jump(n: nat) -> int {
    round_div(n * ONE, n as int + 3)
}

/// A ratio as the fractal keeps it: rounded to two decimal places, then
/// brought into the range from zero to one.
pub open spec fn settle(x: int) -> int {
    clamp_unit(round_to_spec(x, 2))
}

/// The test that `filter_dist` applies: the vertex lies farther than `d` from
/// `p`.
pub open spec fn farther_than(p: Point, d: int) -> spec_fn(Point) -> bool {
    |v: Point| p.dist_spec(v) > d
}

/// The place of the tracer before step `i` of a path.
pub open spec fn tracer_before(path: Seq<(Point, Point)>, i: int) -> Point {
    if i <= 0 {
        tracer_start()
    } else {
        path[i - 1].0
    }
}

/// Step `i` of `path` is a jump of the tracer by `ratio` towards the target
/// that the step names.
pub open spec fn is_step(path: Seq<(Point, Point)>, ratio: int, i: int) -> bool {
    path[i].0 == tracer_before(path, i).jump_spec(path[i].1, ratio)
}

/// `path` is a walk of the chaos game among `vertices`: every step is a jump
/// of the tracer by `ratio` towards one of the vertices, and sets out where
/// the step before it ended.
pub open spec fn is_walk(path: Seq<(Point, Point)>, vertices: Seq<Point>, ratio: int) -> bool {
    forall|i: int|
        0 <= i < path.len() ==> vertices.contains((#[trigger] path[i]).1) && is_step(
            path,
            ratio,
            i,
        )
}

/// `path` is the walk that takes the vertices in the order that `choices`
/// gives by their indices.
pub open spec fn follows(
    path: Seq<(Point, Point)>,
    vertices: Seq<Point>,
    ratio: int,
    choices: Seq<usize>,
) -> bool {
    &&& path.len() == choices.len()
    &&& forall|i: int|
        0 <= i < path.len() ==> {
            &&& choices[i] < vertices.len()
            &&& (#[trigger] path[i]).1 == vertices[choices[i] as int]
            &&& is_step(path, ratio, i)
        }
}

impl Fractal {
    /// The jump ratio lies in the range from zero to one.
    pub open spec fn wf(&self) -> bool {
        0 <= self.jump_size <= ONE
    }

    /// Makes a blank fractal.
    pub fn blank() -> (f: Fractal)
        ensures
            f@ == blank_view(),
            f.wf(),
    {
        Fractal {
            vertices: Vec::new(),
            path: Vec::new(),
            jump_size: DEFAULT_JUMP,
            render_vertices: true,
            render_points: true,
        }
    }

    /// Adds a vertex to the shape, behind those that it has.
    pub fn add_vertex(&mut self, p: Point)
        ensures
            final(self)@ == (FractalView { vertices: old(self)@.vertices.push(p), ..old(self)@ }),
            old(self).wf() ==> final(self).wf(),
    {
        self.vertices.push(p);
    }

    /// Sets the jump ratio to `n / (n + 3)` for `n` vertices. The ratio is a
    /// rule of thumb that draws the well-known figures for three, five and six
    /// vertices. It lies below one, but for rounding: from 5,999,997 vertices
    /// on it is one to the nearest millionth.
    pub fn set_optimal_jump(&mut self)
        ensures
            final(self)@ == (FractalView {
                jump_size: optimal_jump(old(self)@.vertices.len()),
                ..old(self)@
            }),
            final(self).wf(),
    {
        let n: i128 = self.vertices.len() as i128;
        proof {
            // zero <= n / (n + 3) <= (n + 3) / (n + 3) = one
            lemma_round_div_monotonic(0, n * ONE, n + 3);
            lemma_round_div_monotonic(n * ONE, (n + 3) * ONE, n + 3);
            assert((n + 3) * ONE == ONE * (n + 3)) by (nonlinear_arith);
            lemma_round_div_multiple(ONE as int, n + 3);
        }
        self.jump_size = round_div_i128(n * (ONE as i128), n + 3) as i64;
    }

    /// Adds `change` to the jump ratio, rounds the sum to two decimal places
    /// and brings it into the range from zero to one.
    pub fn add_jump(&mut self, change: i64)
        ensures
            final(self)@ == (FractalView {
                jump_size: settle(old(self)@.jump_size + change),
                ..old(self)@
            }),
            final(self).wf(),
    {
        let sum: i128 = self.jump_size as i128 + change as i128;
        self.jump_size = saturate_i128(round_to_wide(sum, 2));
        self.constrain_jump();
    }

    /// Sets the jump ratio to `value`, rounded to two decimal places and
    /// brought into the range from zero to one.
    pub fn set_jump(&mut self, value: i64)
        ensures
            final(self)@ == (FractalView { jump_size: settle(value as int), ..old(self)@ }),
            final(self).wf(),
    {
        self.jump_size = saturate_i128(round_to_wide(value as i128, 2));
        self.constrain_jump();
    }

    /// Brings the jump ratio into the range from zero to one.
    pub fn constrain_jump(&mut self)
        ensures
            final(self)@ == (FractalView {
                jump_size: clamp_unit(old(self)@.jump_size),
                ..old(self)@
            }),
            final(self).wf(),
    {
        if self.jump_size < 0 {
            self.jump_size = 0;
        }
        if self.jump_size > ONE {
            self.jump_size = ONE;
        }
    }

    /// Moves the tracer one step towards the vertex with index `choice` and
    /// writes the step down at the end of the path.
    fn step(&mut self, tracer: &mut Point, choice: usize)
        requires
            choice < old(self).vertices@.len(),
        ensures
            *final(tracer) == old(tracer).jump_spec(
                old(self).vertices@[choice as int],
                old(self).jump_size as int,
            ),
            final(self)@ == (FractalView {
                path: old(self)@.path.push((*final(tracer), old(self).vertices@[choice as int])),
                ..old(self)@
            }),
    {
        let target: Point = self.vertices[choice];
        tracer.jump(target, self.jump_size);
        self.path.push((*tracer, target));
    }

    /// Walks the chaos game for `iters` steps: the tracer sets out at the
    /// starting point, and at every step it jumps by the jump ratio towards a
    /// vertex drawn at random. The path of an earlier walk is discarded. Which
    /// vertices are drawn is left to chance; the path is a walk whatever they
    /// are. A walk of at least one step needs a vertex.
    ///
    /// The draws come from the generator of the calling thread, which the
    /// operating system seeds: the walk panics where the operating system
    /// gives no entropy, when the generator is first used or when it seeds
    /// itself anew. `gen_points_from` takes the draws as an argument and
    /// cannot fail in this way.
    pub fn gen_points(&mut self, iters: u32)
        requires
            iters > 0 ==> old(self).vertices@.len() > 0,
        ensures
            final(self)@ == (FractalView { path: final(self)@.path, ..old(self)@ }),
            final(self)@.path.len() == iters,
            is_walk(final(self)@.path, old(self)@.vertices, old(self)@.jump_size),
            old(self).wf() ==> final(self).wf(),
    {
        self.path = Vec::new();
        let mut rng = rand::thread_rng();
        let mut tracer = Point(START_X, START_Y);
        let mut done: u32 = 0;
        while done < iters
            invariant
                done <= iters,
                iters > 0 ==> self.vertices@.len() > 0,
                self@ == (FractalView { path: self@.path, ..old(self)@ }),
                self@.path.len() == done,
                tracer == tracer_before(self@.path, done as int),
                is_walk(self@.path, self@.vertices, self@.jump_size),
            decreases iters - done,
        {
            let ghost before = self@.path;
            let choice: usize = draw_index(&mut rng, self.vertices.len());
            self.step(&mut tracer, choice);
            done = done + 1;
            proof {
                lemma_walk_push(before, self@.vertices, self@.jump_size, self@.path.last());
            }
        }
    }

    /// Walks the chaos game along `choices`: at step `i` the tracer jumps by
    /// the jump ratio towards the vertex with index `choices[i]`. The path of
    /// an earlier walk is discarded.
    pub fn gen_points_from(&mut self, choices: &[usize])
        requires
            forall|i: int| 0 <= i < choices@.len() ==> choices@[i] < old(self).vertices@.len(),
        ensures
            final(self)@ == (FractalView { path: final(self)@.path, ..old(self)@ }),
            follows(final(self)@.path, old(self)@.vertices, old(self)@.jump_size, choices@),
            is_walk(final(self)@.path, old(self)@.vertices, old(self)@.jump_size),
            old(self).wf() ==> final(self).wf(),
    {
        self.path = Vec::new();
        let mut tracer = Point(START_X, START_Y);
        let mut done: usize = 0;
        while done < choices.len()
            invariant
                done <= choices@.len(),
                forall|i: int| 0 <= i < choices@.len() ==> choices@[i] < self.vertices@.len(),
                self@ == (FractalView { path: self@.path, ..old(self)@ }),
                self@.path.len() == done,
                tracer == tracer_before(self@.path, done as int),
                follows(self@.path, self@.vertices, self@.jump_size, choices@.take(done as int)),
                is_walk(self@.path, self@.vertices, self@.jump_size),
            decreases choices@.len() - done,
        {
            let ghost before = self@.path;
            self.step(&mut tracer, choices[done]);
            done = done + 1;
            proof {
                lemma_walk_push(before, self@.vertices, self@.jump_size, self@.path.last());
                let path = self@.path;
                assert forall|i: int| 0 <= i < path.len() implies {
                    &&& choices@.take(done as int)[i] < self@.vertices.len()
                    &&& (#[trigger] path[i]).1 == self@.vertices[choices@.take(
                        done as int,
                    )[i] as int]
                    &&& is_step(path, self@.jump_size, i)
                } by {
                    if i < done - 1 {
                        assert(before[i] == path[i]);
                        assert(is_step(before, self@.jump_size, i));
                        assert(choices@.take(done - 1)[i] == choices@[i]);
                    }
                }
            }
        }
        assert(choices@.take(done as int) == choices@);
    }

    /// Turns the drawing of the vertices on or off.
    pub fn swap_render_vertices(&mut self)
        ensures
            final(self)@ == (FractalView {
                render_vertices: !old(self)@.render_vertices,
                ..old(self)@
            }),
            old(self).wf() ==> final(self).wf(),
    {
        self.render_vertices = !self.render_vertices;
    }

    /// Turns the drawing of the path on or off.
    pub fn swap_render_points(&mut self)
        ensures
            final(self)@ == (FractalView {
                render_points: !old(self)@.render_points,
                ..old(self)@
            }),
            old(self).wf() ==> final(self).wf(),
    {
        self.render_points = !self.render_points;
    }

    /// Removes every vertex that lies within `d` of `p`, the distance taken as
    /// `Point::dist` gives it. The vertices farther than `d` stay, in the
    /// order that they had.
    pub fn filter_dist(&mut self, p: Point, d: i64)
        ensures
            final(self)@ == (FractalView {
                vertices: old(self)@.vertices.filter(farther_than(p, d as int)),
                ..old(self)@
            }),
            forall|i: int|
                0 <= i < final(self)@.vertices.len() ==> p.dist_spec(
                    #[trigger] final(self)@.vertices[i],
                ) > d,
            forall|i: int|
                0 <= i < old(self)@.vertices.len() && p.dist_spec(old(self)@.vertices[i]) > d
                    ==> final(self)@.vertices.contains(#[trigger] old(self)@.vertices[i]),
            old(self).wf() ==> final(self).wf(),
    {
        let ghost far = farther_than(p, d as int);
        let mut kept: Vec<Point> = Vec::new();
        let mut i: usize = 0;
        proof {
            reveal(Seq::filter);
            assert(self.vertices@.take(0) =~= Seq::<Point>::empty());
        }
        while i < self.vertices.len()
            invariant
                i <= self.vertices@.len(),
                self@ == old(self)@,
                far == farther_than(p, d as int),
                kept@ == self.vertices@.take(i as int).filter(far),
            decreases self.vertices@.len() - i,
        {
            let v: Point = self.vertices[i];
            proof {
                reveal(Seq::filter);
                assert(self.vertices@.take(i + 1).drop_last() =~= self.vertices@.take(i as int));
            }
            if p.dist(v) > d {
                kept.push(v);
            }
            i = i + 1;
        }
        proof {
            let all = self.vertices@;
            assert(all.take(i as int) =~= all);
            assert forall|k: int| 0 <= k < kept@.len() implies p.dist_spec(
                #[trigger] kept@[k],
            ) > d by {
                all.lemma_filter_pred(far, k);
            }
            assert forall|k: int| 0 <= k < all.len() && p.dist_spec(all[k]) > d implies kept@.contains(
                #[trigger] all[k],
            ) by {
                all.lemma_filter_contains(far, k);
            }
        }
        self.vertices = kept;
    }
}

/// A walk stays a walk when one more step is written behind it.
proof fn lemma_walk_push(
    path: Seq<(Point, Point)>,
    vertices: Seq<Point>,
    ratio: int,
    step: (Point, Point),
)
    requires
        is_walk(path, vertices, ratio),
        vertices.contains(step.1),
        step.0 == tracer_before(path, path.len() as int).jump_spec(step.1, ratio),
    ensures
        is_walk(path.push(step), vertices, ratio),
{
    let longer = path.push(step);
    assert forall|i: int| 0 <= i < longer.len() implies vertices.contains(
        (#[trigger] longer[i]).1,
    ) && is_step(longer, ratio, i) by {
        if i < path.len() {
            assert(path[i] == longer[i]);
            assert(is_step(path, ratio, i));
        }
    }
}

} // verus!
