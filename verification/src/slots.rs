//! The ten slots: ten fractals side by side, one of them selected, and the
//! commands that a user gives to the selected one.

use vstd::prelude::*;
use crate::colour::{HSV, RGB};
use crate::fixed::{saturate, saturate_i128, ONE};
use crate::fractal::{
    blank_view, farther_than, is_walk, optimal_jump, settle, Fractal, FractalView,
};
use crate::geometry::Point;

verus! {

/// The number of slots.
pub const SLOT_COUNT: usize = 10;

/// The hue that lies between the colours of two neighbouring slots: 36
/// degrees.
pub const HUE_STEP: i64 = 36_000_000;

/// The opacity of the field of the selected slot in the slot bar: seven
/// tenths.
pub const SELECTED_OPACITY: i64 = 700_000;

/// The opacity of the field of every other slot in the slot bar: one tenth.
pub const IDLE_OPACITY: i64 = 100_000;

/// Ten fractals and the index of the one that commands go to.
#[derive(Clone, Debug)]
pub struct Slots {
    pub fractals: Vec<Fractal>,
    pub current: usize,
}

/// What the slots hold, as mathematical values.
pub struct SlotsView {
    pub fractals: Seq<FractalView>,
    pub current: nat,
}

/// What a user can ask of the slots.
#[derive(Copy, Clone, Debug, PartialEq, Eq)]
pub enum Command {
    /// Select the slot with this index.
    Select(usize),
    /// Walk the selected fractal for this many steps.
    Generate(u32),
    /// Add this much to the jump ratio of the selected fractal.
    AddJump(i64),
    /// Set the jump ratio of the selected fractal to this value.
    SetJump(i64),
    /// Give the selected fractal the jump ratio that suits its vertices.
    OptimalJump,
    /// Replace the selected fractal with a blank one.
    Clear,
    /// Turn the drawing of the vertices of the selected fractal on or off.
    ToggleVertices,
    /// Turn the drawing of the path of the selected fractal on or off.
    TogglePoints,
    /// Add this vertex to the selected fractal.
    AddVertex(Point),
    /// Remove from the selected fractal the vertices that lie within the
    /// given distance of the given point.
    RemoveNear(Point, i64),
}

impl View for Slots {
    type V = SlotsView;

    open spec fn view(&self) -> SlotsView {
        SlotsView {
            fractals: self.fractals@.map_values(|f: Fractal| f@),
            current: self.current as nat,
        }
    }
}

/// The hue of the slot with the given index: 36 degrees for each slot before
/// it.
pub open spec fn slot_hue(index: nat) -> int {
    saturate(HUE_STEP * index)
}

/// The fractal that a command leaves where it found `f`. `Select` and
/// `Generate` are not described here: the first touches no fractal, and the
/// walk of the second is left to chance.
pub open spec fn fractal_after(f: FractalView, command: Command) -> FractalView {
    match command {
        Command::Select(_) => f,
        Command::Generate(_) => f,
        Command::AddJump(change) => FractalView { jump_size: settle(f.jump_size + change), ..f },
        Command::SetJump(value) => FractalView { jump_size: settle(value as int), ..f },
        Command::OptimalJump => FractalView { jump_size: optimal_jump(f.vertices.len()), ..f },
        Command::Clear => blank_view(),
        Command::ToggleVertices => FractalView { render_vertices: !f.render_vertices, ..f },
        Command::TogglePoints => FractalView { render_points: !f.render_points, ..f },
        Command::AddVertex(p) => FractalView { vertices: f.vertices.push(p), ..f },
        Command::RemoveNear(p, d) => FractalView {
            vertices: f.vertices.filter(farther_than(p, d as int)),
            ..f
        },
    }
}

/// The colour in which the slot with the given index is drawn: full
/// saturation and value, at the hue of the slot.
pub fn slot_colour(index: usize) -> (rgb: RGB)
    ensures
        rgb == RGB::from_hsv_spec(HSV(slot_hue(index as nat) as i64, ONE, ONE)),
{
    assert(0 <= HUE_STEP * index <= 36_000_000 * 0xffff_ffff_ffff_ffff) by (nonlinear_arith)
        requires
            0 <= index <= 0xffff_ffff_ffff_ffff,
    ;
    let hue: i64 = saturate_i128((HUE_STEP as i128) * (index as i128));
    RGB::from_hsv(&HSV(hue, ONE, ONE))
}

impl Slots {
    /// There are ten slots, and one of them is selected.
    pub open spec fn wf(&self) -> bool {
        &&& self.fractals@.len() == SLOT_COUNT
        &&& self.current < SLOT_COUNT
    }

    /// Every fractal has its jump ratio in the range from zero to one.
    pub open spec fn ratios_wf(&self) -> bool {
        forall|i: int| 0 <= i < self.fractals@.len() ==> (#[trigger] self.fractals@[i]).wf()
    }

    /// Makes ten blank fractals and selects the first.
    pub fn new() -> (slots: Slots)
        ensures
            slots.wf(),
            slots.ratios_wf(),
            slots@.current == 0,
            forall|i: int| 0 <= i < SLOT_COUNT ==> #[trigger] slots@.fractals[i] == blank_view(),
    {
        let mut fractals: Vec<Fractal> = Vec::with_capacity(SLOT_COUNT);
        let mut made: usize = 0;
        while made < SLOT_COUNT
            invariant
                made <= SLOT_COUNT,
                fractals@.len() == made,
                forall|i: int| 0 <= i < made ==> (#[trigger] fractals@[i])@ == blank_view(),
                forall|i: int| 0 <= i < made ==> (#[trigger] fractals@[i]).wf(),
            decreases SLOT_COUNT - made,
        {
            fractals.push(Fractal::blank());
            made = made + 1;
        }
        Slots { fractals, current: 0 }
    }

    /// The opacity with which the field of the slot with the given index is
    /// drawn in the slot bar: the field of the selected slot stands out.
    pub fn slot_opacity(&self, index: usize) -> (opacity: i64)
        ensures
            opacity == if index == self.current {
                SELECTED_OPACITY
            } else {
                IDLE_OPACITY
            },
    {
        if index == self.current {
            SELECTED_OPACITY
        } else {
            IDLE_OPACITY
        }
    }

    /// Selects the slot with the given index. An index that names no slot
    /// leaves the selection as it is, and the result says so.
    pub fn select(&mut self, index: usize) -> (done: bool)
        requires
            old(self).wf(),
        ensures
            final(self).wf(),
            done == (index < SLOT_COUNT),
            done ==> final(self)@ == (SlotsView { current: index as nat, ..old(self)@ }),
            !done ==> final(self)@ == old(self)@,
            old(self).ratios_wf() ==> final(self).ratios_wf(),
    {
        if index < SLOT_COUNT {
            self.current = index;
            true
        } else {
            false
        }
    }

    /// Replaces the fractal in the slot with the given index with a blank one:
    /// no vertices, no path, the default jump ratio, both switches on. Every
    /// other slot, and the selection, stay as they are.
    pub fn clear(&mut self, index: usize)
        requires
            old(self).wf(),
            index < SLOT_COUNT,
        ensures
            final(self).wf(),
            final(self)@ == (SlotsView {
                fractals: old(self)@.fractals.update(index as int, blank_view()),
                ..old(self)@
            }),
            old(self).ratios_wf() ==> final(self).ratios_wf(),
    {
        self.fractals[index] = Fractal::blank();
        assert(self@.fractals =~= old(self)@.fractals.update(index as int, blank_view()));
    }

    /// Carries out a command on the selected slot. The result is `false`, and
    /// nothing has changed, where the command cannot be carried out: a
    /// selection of a slot that does not exist, or a walk of at least one step
    /// on a fractal without vertices. A walk draws from the generator of the
    /// calling thread and panics, as `Fractal::gen_points` does, where the
    /// operating system gives that generator no entropy.
    pub fn apply(&mut self, command: Command) -> (done: bool)
        requires
            old(self).wf(),
        ensures
            final(self).wf(),
            old(self).ratios_wf() ==> final(self).ratios_wf(),
            !done ==> final(self)@ == old(self)@,
            match command {
                Command::Select(index) => {
                    &&& done == (index < SLOT_COUNT)
                    &&& done ==> final(self)@ == (SlotsView {
                        current: index as nat,
                        ..old(self)@
                    })
                },
                Command::Generate(iters) => {
                    let before = old(self)@.fractals[old(self)@.current as int];
                    let after = final(self)@.fractals[old(self)@.current as int];
                    &&& done == (iters == 0 || before.vertices.len() > 0)
                    &&& done ==> {
                        &&& final(self)@ == (SlotsView {
                            fractals: old(self)@.fractals.update(old(self)@.current as int, after),
                            ..old(self)@
                        })
                        &&& after == (FractalView { path: after.path, ..before })
                        &&& after.path.len() == iters
                        &&& is_walk(after.path, before.vertices, before.jump_size)
                    }
                },
                _ => {
                    &&& done
                    &&& final(self)@ == (SlotsView {
                        fractals: old(self)@.fractals.update(
                            old(self)@.current as int,
                            fractal_after(old(self)@.fractals[old(self)@.current as int], command),
                        ),
                        ..old(self)@
                    })
                },
            },
    {
        let at: usize = self.current;
        let ghost before = self@.fractals;
        let mut done: bool = true;
        match command {
            Command::Select(index) => {
                done = self.select(index);
            },
            Command::Generate(iters) => {
                if iters == 0 || self.fractals[at].vertices.len() > 0 {
                    self.fractals[at].gen_points(iters);
                } else {
                    done = false;
                }
            },
            Command::AddJump(change) => {
                self.fractals[at].add_jump(change);
            },
            Command::SetJump(value) => {
                self.fractals[at].set_jump(value);
            },
            Command::OptimalJump => {
                self.fractals[at].set_optimal_jump();
            },
            Command::Clear => {
                self.clear(at);
            },
            Command::ToggleVertices => {
                self.fractals[at].swap_render_vertices();
            },
            Command::TogglePoints => {
                self.fractals[at].swap_render_points();
            },
            Command::AddVertex(p) => {
                self.fractals[at].add_vertex(p);
            },
            Command::RemoveNear(p, d) => {
                self.fractals[at].filter_dist(p, d);
            },
        }
        proof {
            if command is Select {
            } else if done {
                assert(self@.fractals =~= before.update(at as int, self@.fractals[at as int]));
            } else {
                assert(self@.fractals =~= before);
            }
        }
        done
    }
}

} // verus!
