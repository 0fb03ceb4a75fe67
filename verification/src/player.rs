//! The player: position, facing, derived movement vectors, and the per-frame
//! controller update.
//!
//! Facing is a fixed-point angle in radians. The unit forward and right
//! vectors derived from it are transcendental, so the caller computes the
//! cosine and sine of the new facing (the one external collaboration of this
//! module) and the controller installs them; everything else — turning,
//! velocity intent, and delegation of displacement to the collision
//! resolver — is exact integer logic.

use vstd::prelude::*;
use crate::fixed::SCALE;
use crate::fixed::Vec2;
use crate::fixed::in_range;
use crate::fixed::div_floor;
use crate::collision::SLIDE_MAX;
use crate::collision::slide_move;
use crate::collision::slide_move_spec;
use crate::collision::lemma_push_small;
use crate::map::GridMap;
use crate::input::Input;
use crate::input::Key;

verus! {

/// Movement speed: about a tenth of a world unit per frame.
pub const PLAYER_SPEED: i64 = 102;

/// Turn speed: about five hundredths of a radian per frame.
pub const PLAYER_TURN_SPEED: i64 = 51;

/// Field of view: about a quarter turn of pi radians.
pub const PLAYER_FOV: i64 = 804;

/// Collision radius: a quarter of a world unit.
pub const PLAYER_RADIUS: i64 = 256;

/// Headroom bound on the stored facing angle so turning cannot overflow.
pub const FACING_MAX: i64 = 0x1000_0000_0000;

pub struct Player {
    pub position: Vec2,
    pub velocity: Vec2,
    pub facing: i64,
    pub forward: Vec2,
    pub right: Vec2,
    pub speed: i64,
    pub turn_speed: i64,
    pub fov: i64,
    pub radius: i64,
}

impl Player {
    /// Speeds and radius are in their accepted ranges, the derived vectors
    /// have components no longer than one unit, and the facing angle has
    /// room to turn.
    pub open spec fn wf(self) -> bool {
        &&& 0 < self.radius <= crate::fixed::RADIUS_MAX
        &&& 0 <= self.speed <= SCALE
        &&& 0 <= self.turn_speed <= SCALE
        &&& in_range(self.forward, SCALE as int)
        &&& in_range(self.right, SCALE as int)
        &&& -FACING_MAX <= self.facing <= FACING_MAX
    }

    /// The facing after this frame's turn inputs: turn-right and turn-left
    /// each rotate by the turn speed, and cancel when both are held.
    pub open spec fn next_facing(self, input: Input) -> int {
        self.facing + (if input.spec_pressed(Key::TurnRight) {
            self.turn_speed as int
        } else {
            0
        }) - (if input.spec_pressed(Key::TurnLeft) {
            self.turn_speed as int
        } else {
            0
        })
    }

    /// The velocity intent from this frame's movement inputs: each held
    /// movement key assigns the whole velocity along the forward or right
    /// vector, so when several are held the last assignment in key order
    /// (forward, back, strafe-right, strafe-left) wins; they do not sum.
    pub open spec fn velocity_spec(input: Input, fwd: Vec2, rgt: Vec2, speed: i64) -> (int, int) {
        let v0 = (0int, 0int);
        let v1 = if input.spec_pressed(Key::Forward) {
            (fwd.x * speed / (SCALE as int), fwd.y * speed / (SCALE as int))
        } else {
            v0
        };
        let v2 = if input.spec_pressed(Key::Back) {
            ((-fwd.x) * speed / (SCALE as int), (-fwd.y) * speed / (SCALE as int))
        } else {
            v1
        };
        let v3 = if input.spec_pressed(Key::StrafeRight) {
            (rgt.x * speed / (SCALE as int), rgt.y * speed / (SCALE as int))
        } else {
            v2
        };
        if input.spec_pressed(Key::StrafeLeft) {
            ((-rgt.x) * speed / (SCALE as int), (-rgt.y) * speed / (SCALE as int))
        } else {
            v3
        }
    }

    /// A player at `position` facing along the positive x axis, with the
    /// fixed speeds, field of view and collision radius.
    pub fn new(position: Vec2) -> (p: Player)
        ensures
            p.wf(),
            p.position == position,
            p.velocity == (Vec2 { x: 0i64, y: 0i64 }),
            p.facing == 0,
            p.forward == (Vec2 { x: SCALE, y: 0i64 }),
            p.right == (Vec2 { x: 0i64, y: SCALE }),
            p.speed == PLAYER_SPEED,
            p.turn_speed == PLAYER_TURN_SPEED,
            p.fov == PLAYER_FOV,
            p.radius == PLAYER_RADIUS,
    {
        Player {
            position,
            facing: 0,
            forward: Vec2 { x: SCALE, y: 0 },
            fov: PLAYER_FOV,
            right: Vec2 { x: 0, y: SCALE },
            speed: PLAYER_SPEED,
            turn_speed: PLAYER_TURN_SPEED,
            radius: PLAYER_RADIUS,
            velocity: Vec2 { x: 0, y: 0 },
        }
    }

    /// Installs a facing angle together with its cosine and sine, which the
    /// caller computes: the forward vector is `(cos, sin)` and the right
    /// vector is the forward vector rotated a quarter turn, `(-sin, cos)`.
    pub fn set_facing(&mut self, facing: i64, facing_cos: i64, facing_sin: i64)
        requires
            old(self).wf(),
            -SCALE <= facing_cos <= SCALE,
            -SCALE <= facing_sin <= SCALE,
            -FACING_MAX <= facing <= FACING_MAX,
        ensures
            final(self).wf(),
            final(self).facing == facing,
            final(self).forward == (Vec2 { x: facing_cos, y: facing_sin }),
            final(self).right.x == -facing_sin,
            final(self).right.y == facing_cos,
            final(self).position == old(self).position,
            final(self).velocity == old(self).velocity,
            final(self).speed == old(self).speed,
            final(self).turn_speed == old(self).turn_speed,
            final(self).fov == old(self).fov,
            final(self).radius == old(self).radius,
    {
        self.facing = facing;
        self.forward = Vec2 { x: facing_cos, y: facing_sin };
        self.right = Vec2 { x: -facing_sin, y: facing_cos };
    }

    /// One controller frame: apply turn inputs to the facing (installing the
    /// caller-computed cosine and sine of the new facing when a turn key is
    /// held), recompute the velocity intent from the movement inputs, and
    /// delegate the displacement to the sliding collision resolver against
    /// the map's segments.
    pub fn update(&mut self, map: &GridMap, input: &Input, facing_cos: i64, facing_sin: i64)
        requires
            old(self).wf(),
            map.wf(),
            -SCALE <= facing_cos <= SCALE,
            -SCALE <= facing_sin <= SCALE,
            in_range(old(self).position, SLIDE_MAX as int),
            -FACING_MAX + SCALE <= old(self).facing <= FACING_MAX - SCALE,
        ensures
            final(self).wf(),
            final(self).facing == old(self).next_facing(*input),
            input.spec_pressed(Key::TurnRight) || input.spec_pressed(Key::TurnLeft)
                ==> final(self).forward == (Vec2 { x: facing_cos, y: facing_sin })
                && final(self).right.x == -facing_sin && final(self).right.y == facing_cos,
            !(input.spec_pressed(Key::TurnRight) || input.spec_pressed(Key::TurnLeft))
                ==> final(self).forward == old(self).forward
                && final(self).right == old(self).right,
            (final(self).velocity.x as int, final(self).velocity.y as int)
                == Player::velocity_spec(
                *input,
                final(self).forward,
                final(self).right,
                old(self).speed,
            ),
            (final(self).position.x as int, final(self).position.y as int) == slide_move_spec(
                old(self).position,
                old(self).radius,
                final(self).velocity,
                map.segments@,
            ),
            final(self).speed == old(self).speed,
            final(self).turn_speed == old(self).turn_speed,
            final(self).fov == old(self).fov,
            final(self).radius == old(self).radius,
    {
        self.velocity = Vec2 { x: 0, y: 0 };

        let turn_right = input.get_pressed(Key::TurnRight);
        let turn_left = input.get_pressed(Key::TurnLeft);
        if turn_right {
            self.facing = self.facing + self.turn_speed;
        }
        if turn_left {
            self.facing = self.facing - self.turn_speed;
        }
        if turn_right || turn_left {
            self.forward = Vec2 { x: facing_cos, y: facing_sin };
            self.right = Vec2 { x: -facing_sin, y: facing_cos };
        }

        proof {
            lemma_push_small(self.forward.x as int, self.speed as int);
            lemma_push_small(self.forward.y as int, self.speed as int);
            lemma_push_small(-(self.forward.x as int), self.speed as int);
            lemma_push_small(-(self.forward.y as int), self.speed as int);
            lemma_push_small(self.right.x as int, self.speed as int);
            lemma_push_small(self.right.y as int, self.speed as int);
            lemma_push_small(-(self.right.x as int), self.speed as int);
            lemma_push_small(-(self.right.y as int), self.speed as int);
        }
        if input.get_pressed(Key::Forward) {
            self.velocity = Vec2 {
                x: div_floor(self.forward.x * self.speed, SCALE),
                y: div_floor(self.forward.y * self.speed, SCALE),
            };
        }
        if input.get_pressed(Key::Back) {
            self.velocity = Vec2 {
                x: div_floor(-self.forward.x * self.speed, SCALE),
                y: div_floor(-self.forward.y * self.speed, SCALE),
            };
        }
        if input.get_pressed(Key::StrafeRight) {
            self.velocity = Vec2 {
                x: div_floor(self.right.x * self.speed, SCALE),
                y: div_floor(self.right.y * self.speed, SCALE),
            };
        }
        if input.get_pressed(Key::StrafeLeft) {
            self.velocity = Vec2 {
                x: div_floor(-self.right.x * self.speed, SCALE),
                y: div_floor(-self.right.y * self.speed, SCALE),
            };
        }

        let new_pos = slide_move(self.position, self.radius, self.velocity, &map.segments);
        self.position = new_pos;
    }
}

} // verus!
