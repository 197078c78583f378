//! The controls: where the bars of the viewport lie, and which command a key
//! or a mouse button gives.
//!
//! Along the top of the viewport runs a control bar. Its left part is the slot
//! bar, ten fields side by side that select the slots; its right part is the
//! jump bar, which shows the jump ratio of the selected slot and on which a
//! click sets it. Below the control bar a click of the left button places a
//! vertex, and a click of the right button removes the vertices near the
//! cursor.

use vstd::prelude::*;
use vstd::arithmetic::div_mod::{lemma_fundamental_div_mod, lemma_mod_bound};
use crate::fixed::{
    lemma_round_div_monotonic, lemma_round_div_multiple, round_div, round_div_i128, saturate,
    saturate_i128, ONE,
};
use crate::geometry::Point;
use crate::slots::{Command, SLOT_COUNT};

verus! {

/// The height of the control bar: 30 pixels.
pub const BAR_HEIGHT: i64 = 30_000_000;

/// The margin between the edge of the control bar and the bars in it: 5
/// pixels.
pub const MARGIN: i64 = 5_000_000;

/// The height of the slot bar and of the jump bar: 20 pixels.
pub const FIELD_HEIGHT: i64 = 20_000_000;

/// The width of the field of one slot, for each pixel of the width of the
/// viewport: six hundredths.
pub const FIELD_SHARE: i64 = 60_000;

/// The width of the jump bar, for each pixel of the width of the viewport:
/// one fifth.
pub const JUMP_BAR_SHARE: i64 = 200_000;

/// The side of the square that marks a vertex: 10 pixels.
pub const VERTEX_SIZE: i64 = 10_000_000;

/// The side of the square that marks a place of the tracer: 1 pixel.
pub const POINT_SIZE: i64 = 1_000_000;

/// What one press of a key adds to the jump ratio, or takes from it: a
/// hundredth.
pub const JUMP_STEP: i64 = 10_000;

/// How near to the cursor a vertex must lie to be removed: 25 pixels.
pub const ERASE_RADIUS: i64 = 25_000_000;

/// The keys that the controls know.
#[derive(Copy, Clone, Debug, PartialEq, Eq)]
pub enum Key {
    /// A key of the digit row, with its digit from 0 to 9.
    Digit(u8),
    Return,
    Equals,
    Minus,
    Space,
    C,
    Comma,
    Period,
    /// Any other key.
    Other,
}

/// The buttons of the mouse.
#[derive(Copy, Clone, Debug, PartialEq, Eq)]
pub enum MouseButton {
    Left,
    Right,
    /// Any other button.
    Other,
}

/// A rectangle of the viewport: its left edge, its top edge, its width and
/// its height, all of them scalars.
#[derive(Copy, Clone, Debug, PartialEq, Eq, Structural)]
pub struct Rect(pub i64, pub i64, pub i64, pub i64);

/// The controls of a viewport.
#[derive(Copy, Clone, Debug)]
pub struct Controls {
    /// The width of the viewport, in whole pixels.
    pub width: u32,
    /// The number of steps of a walk.
    pub iterations: u32,
}

/// The slot that a key of the digit row selects: the keys 1 to 9 select the
/// first nine slots, the key 0 the tenth.
pub open spec fn digit_slot(digit: u8) -> nat {
    if digit == 0 {
        9
    } else {
        (digit - 1) as nat
    }
}

/// The command that a key gives for walks of `iterations` steps, if it gives
/// one.
pub open spec fn key_command(key: Key, iterations: u32) -> Option<Command> {
    match key {
        Key::Digit(d) => if d <= 9 {
            Some(Command::Select(digit_slot(d) as usize))
        } else {
            None
        },
        Key::Return => Some(Command::Generate(iterations)),
        Key::Equals => Some(Command::AddJump(JUMP_STEP)),
        Key::Minus => Some(Command::AddJump((-JUMP_STEP) as i64)),
        Key::Space => Some(Command::OptimalJump),
        Key::C => Some(Command::Clear),
        Key::Comma => Some(Command::ToggleVertices),
        Key::Period => Some(Command::TogglePoints),
        Key::Other => None,
    }
}

/// The square that marks the vertex `p`: ten pixels wide, with `p` in its
/// middle.
pub open spec fn vertex_marker_spec(p: Point) -> Rect {
    Rect(
        saturate(p.0 - VERTEX_SIZE / 2) as i64,
        saturate(p.1 - VERTEX_SIZE / 2) as i64,
        VERTEX_SIZE,
        VERTEX_SIZE,
    )
}

/// The square that marks the vertex `p`. Near the ends of the range of `i64`
/// its corner stops at the end.
pub fn vertex_marker(p: Point) -> (r: Rect)
    ensures
        r == vertex_marker_spec(p),
{
    Rect(
        saturate_i128(p.0 as i128 - (VERTEX_SIZE / 2) as i128),
        saturate_i128(p.1 as i128 - (VERTEX_SIZE / 2) as i128),
        VERTEX_SIZE,
        VERTEX_SIZE,
    )
}

/// The square that marks a place `p` of the tracer: one pixel wide, with `p`
/// at its corner.
pub fn point_mark(p: Point) -> (r: Rect)
    ensures
        r == Rect(p.0, p.1, POINT_SIZE, POINT_SIZE),
{
    Rect(p.0, p.1, POINT_SIZE, POINT_SIZE)
}

/// The scalar that takes the part `share` of each of `width` pixels.
fn scaled(width: u32, share: i64) -> (s: i64)
    requires
        0 < share <= ONE,
    ensures
        s == width * share,
        0 <= s <= 0xffff_ffff * ONE,
        width > 0 ==> s >= share,
{
    assert(0 <= width * share <= 0xffff_ffff * 1_000_000 && (width > 0 ==> width * share >= share))
        by (nonlinear_arith)
        requires
            0 <= width <= 0xffff_ffff,
            0 < share <= 1_000_000,
    ;
    (width as i64) * share
}

impl Controls {
    /// The width of the viewport as a scalar.
    pub open spec fn span(self) -> int {
        self.width * ONE
    }

    /// The width of the field of one slot.
    pub open spec fn field_width(self) -> int {
        self.width * FIELD_SHARE
    }

    /// The width of the jump bar.
    pub open spec fn jump_bar_width(self) -> int {
        self.width * JUMP_BAR_SHARE
    }

    /// The left edge of the jump bar as it is drawn: the bar ends one margin
    /// before the right edge of the viewport.
    pub open spec fn jump_bar_left(self) -> int {
        self.span() - self.jump_bar_width() - MARGIN
    }

    /// The field of slot `k` in the slot bar: the fields follow one another
    /// from one margin behind the left edge of the viewport.
    pub open spec fn slot_field_spec(self, k: nat) -> Rect {
        Rect(
            (MARGIN + self.field_width() * k) as i64,
            MARGIN,
            self.field_width() as i64,
            FIELD_HEIGHT,
        )
    }

    /// The field of slot `k` holds the horizontal position `x`: the position
    /// lies at its left edge or to the right of it, and to the left of its
    /// right edge.
    pub open spec fn slot_holds(self, k: nat, x: int) -> bool {
        MARGIN + self.field_width() * k <= x < MARGIN + self.field_width() * (k + 1)
    }

    /// The slot whose field holds the horizontal position `x`, if there is
    /// one.
    pub open spec fn slot_under_spec(self, x: int) -> Option<usize> {
        if 0 <= x - MARGIN < SLOT_COUNT * self.field_width() {
            Some(((x - MARGIN) / self.field_width()) as usize)
        } else {
            None
        }
    }

    /// A click at the horizontal position `x` sets the jump ratio: the
    /// position lies in the right fifth of the viewport.
    pub open spec fn jump_bar_holds(self, x: int) -> bool {
        self.span() - self.jump_bar_width() <= x < self.span()
    }

    /// The ratio that a click at the horizontal position `x` asks for, if it
    /// asks for one: the part of the jump bar, as it is drawn, that lies to
    /// the left of the position.
    pub open spec fn jump_under_spec(self, x: int) -> Option<i64> {
        if self.jump_bar_holds(x) {
            Some(round_div((x - self.jump_bar_left()) * ONE, self.jump_bar_width()) as i64)
        } else {
            None
        }
    }

    /// The commands that a press of a mouse button gives with the cursor at
    /// `cursor`, in the order in which they are to be carried out.
    pub open spec fn button_commands(self, button: MouseButton, cursor: Point) -> Seq<Command> {
        match button {
            MouseButton::Left => if cursor.1 > BAR_HEIGHT {
                seq![Command::AddVertex(cursor)]
            } else {
                let jump = match self.jump_under_spec(cursor.0 as int) {
                    Some(ratio) => seq![Command::SetJump(ratio)],
                    None => Seq::empty(),
                };
                let slot = match self.slot_under_spec(cursor.0 as int) {
                    Some(k) => seq![Command::Select(k)],
                    None => Seq::empty(),
                };
                jump + slot
            },
            MouseButton::Right => seq![Command::RemoveNear(cursor, ERASE_RADIUS)],
            MouseButton::Other => Seq::empty(),
        }
    }

    /// The control bar: the whole width of the viewport, at its top.
    pub fn bar(&self) -> (r: Rect)
        ensures
            r == Rect(0, 0, self.span() as i64, BAR_HEIGHT),
    {
        Rect(0, 0, scaled(self.width, ONE), BAR_HEIGHT)
    }

    /// The slot bar: the ten fields of the slots as one rectangle.
    pub fn slot_bar(&self) -> (r: Rect)
        ensures
            r == Rect(MARGIN, MARGIN, (SLOT_COUNT * self.field_width()) as i64, FIELD_HEIGHT),
    {
        Rect(MARGIN, MARGIN, 10 * scaled(self.width, FIELD_SHARE), FIELD_HEIGHT)
    }

    /// The field of the slot with index `k` in the slot bar, if there is such
    /// a slot.
    pub fn slot_field(&self, k: usize) -> (field: Option<Rect>)
        ensures
            field == if k < SLOT_COUNT {
                Some(self.slot_field_spec(k as nat))
            } else {
                None
            },
    {
        if k < SLOT_COUNT {
            let width: i64 = scaled(self.width, FIELD_SHARE);
            assert(0 <= width * k <= 9 * width) by (nonlinear_arith)
                requires
                    0 <= width,
                    0 <= k <= 9,
            ;
            Some(Rect(MARGIN + width * (k as i64), MARGIN, width, FIELD_HEIGHT))
        } else {
            None
        }
    }

    /// The jump bar as it is drawn: a fifth of the viewport wide, one margin
    /// before its right edge.
    pub fn jump_bar(&self) -> (r: Rect)
        ensures
            r == Rect(
                self.jump_bar_left() as i64,
                MARGIN,
                self.jump_bar_width() as i64,
                FIELD_HEIGHT,
            ),
    {
        let width: i64 = scaled(self.width, JUMP_BAR_SHARE);
        Rect(scaled(self.width, ONE) - width - MARGIN, MARGIN, width, FIELD_HEIGHT)
    }

    /// The part of the jump bar that is filled for the jump ratio
    /// `jump_size`: it begins where the bar begins and takes that part of its
    /// width.
    pub fn jump_fill(&self, jump_size: i64) -> (r: Rect)
        ensures
            r == Rect(
                self.jump_bar_left() as i64,
                MARGIN,
                saturate(round_div(jump_size * self.jump_bar_width(), ONE as int)) as i64,
                FIELD_HEIGHT,
            ),
    {
        let bar: Rect = self.jump_bar();
        assert(-(0x8000_0000_0000_0000 * 0x8000_0000_0000_0000) < jump_size * bar.2
            <= 0x8000_0000_0000_0000 * 0x8000_0000_0000_0000) by (nonlinear_arith)
            requires
                -0x8000_0000_0000_0000 <= jump_size < 0x8000_0000_0000_0000,
                0 <= bar.2 < 0x8000_0000_0000_0000,
        ;
        let filled: i64 = saturate_i128(
            round_div_i128((jump_size as i128) * (bar.2 as i128), ONE as i128),
        );
        Rect(bar.0, bar.1, filled, bar.3)
    }

    /// The command that a press of `key` gives, if it gives one.
    pub fn key_pressed(&self, key: Key) -> (command: Option<Command>)
        ensures
            command == key_command(key, self.iterations),
    {
        match key {
            Key::Digit(d) => {
                if d == 0 {
                    Some(Command::Select(9))
                } else if d <= 9 {
                    Some(Command::Select((d - 1) as usize))
                } else {
                    None
                }
            },
            Key::Return => Some(Command::Generate(self.iterations)),
            Key::Equals => Some(Command::AddJump(JUMP_STEP)),
            Key::Minus => Some(Command::AddJump(-JUMP_STEP)),
            Key::Space => Some(Command::OptimalJump),
            Key::C => Some(Command::Clear),
            Key::Comma => Some(Command::ToggleVertices),
            Key::Period => Some(Command::TogglePoints),
            Key::Other => None,
        }
    }

    /// The slot whose field of the slot bar holds the horizontal position
    /// `x`, if there is one.
    pub fn slot_under(&self, x: i64) -> (slot: Option<usize>)
        ensures
            slot == self.slot_under_spec(x as int),
            match slot {
                Some(k) => k < SLOT_COUNT && self.slot_holds(k as nat, x as int),
                None => forall|k: nat| k < SLOT_COUNT ==> !self.slot_holds(k, x as int),
            },
    {
        let offset: i128 = x as i128 - MARGIN as i128;
        let field: i128 = scaled(self.width, FIELD_SHARE) as i128;
        if 0 <= offset && offset < (SLOT_COUNT as i128) * field {
            let k: i128 = offset / field;
            proof {
                lemma_fundamental_div_mod(offset as int, field as int);
                lemma_mod_bound(offset as int, field as int);
                assert(k < 10) by (nonlinear_arith)
                    requires
                        offset == field * k + offset % field,
                        0 <= offset % field,
                        offset < 10 * field,
                        field > 0,
                ;
                assert(field * (k + 1) == field * k + field) by (nonlinear_arith);
            }
            Some(k as usize)
        } else {
            proof {
                assert forall|k: nat| k < SLOT_COUNT implies !self.slot_holds(k, x as int) by {
                    assert(0 <= field * k && field * (k + 1) <= 10 * field) by (nonlinear_arith)
                        requires
                            field >= 0,
                            0 <= k < 10,
                    ;
                }
            }
            None
        }
    }

    /// The ratio that a click at the horizontal position `x` asks for, if it
    /// asks for one.
    pub fn jump_under(&self, x: i64) -> (ratio: Option<i64>)
        ensures
            ratio == self.jump_under_spec(x as int),
    {
        let span: i128 = scaled(self.width, ONE) as i128;
        let width: i128 = scaled(self.width, JUMP_BAR_SHARE) as i128;
        if span - width <= x as i128 && (x as i128) < span {
            let part: i128 = x as i128 - (span - width - MARGIN as i128);
            proof {
                assert(0 <= part * ONE <= (26 * ONE) * width) by (nonlinear_arith)
                    requires
                        0 <= part <= 26 * width,
                        ONE == 1_000_000,
                ;
                lemma_round_div_monotonic(0, part * ONE, width as int);
                lemma_round_div_monotonic(part * ONE, (26 * ONE) * width, width as int);
                lemma_round_div_multiple(26 * ONE, width as int);
            }
            Some(round_div_i128(part * (ONE as i128), width) as i64)
        } else {
            None
        }
    }

    /// The commands that a press of a mouse button gives with the cursor at
    /// `cursor`, in the order in which they are to be carried out. Below the
    /// control bar the left button places a vertex; on the control bar it
    /// sets the jump ratio, selects a slot, or does nothing. The right button
    /// removes the vertices near the cursor.
    pub fn button_pressed(&self, button: MouseButton, cursor: Point) -> (commands: Vec<Command>)
        ensures
            commands@ == self.button_commands(button, cursor),
    {
        let mut commands: Vec<Command> = Vec::new();
        match button {
            MouseButton::Left => {
                if cursor.1 > BAR_HEIGHT {
                    commands.push(Command::AddVertex(cursor));
                } else {
                    if let Some(ratio) = self.jump_under(cursor.0) {
                        commands.push(Command::SetJump(ratio));
                    }
                    if let Some(k) = self.slot_under(cursor.0) {
                        commands.push(Command::Select(k));
                    }
                }
            },
            MouseButton::Right => {
                commands.push(Command::RemoveNear(cursor, ERASE_RADIUS));
            },
            MouseButton::Other => {},
        }
        assert(commands@ =~= self.button_commands(button, cursor));
        commands
    }
}

} // verus!
