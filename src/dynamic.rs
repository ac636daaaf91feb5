//! Velocity, mass, friction and pending force of a moving entity, and the
//! semi-implicit Euler step that advances it.
use crate::fixed::{
    abs_int, ceil_sqrt, ceil_sqrt_u128, clamp_coord, clamp_to_coord, div_toward_zero,
    in_coord_range, lemma_trunc_div, lemma_trunc_div_bounded, trunc_div, COORD_LIMIT, UNIT,
};
use crate::game_object::GameObjectAttributes;
use vstd::prelude::*;

verus! {

/// Largest magnitude of a pending force (`100.0`).
pub const MAX_FORCE: i64 = 100_000;

/// `f` clamped into `[0, UNIT]`, the fixed-point interval `[0, 1]`.
pub open spec fn clamp_friction(f: int) -> int {
    if f < 0 {
        0
    } else if f > UNIT {
        UNIT as int
    } else {
        f
    }
}

pub open spec fn norm_sq(x: int, y: int) -> int {
    x * x + y * y
}

/// One component of a force after its magnitude is limited to `MAX_FORCE`:
/// a force within the limit is kept, a larger one is scaled by
/// `MAX_FORCE / |f|`, with `|f|` rounded up.
pub open spec fn limited_component(c: int, fx: int, fy: int) -> int {
    let n = norm_sq(fx, fy);
    if n <= MAX_FORCE * MAX_FORCE {
        c
    } else {
        trunc_div(c * MAX_FORCE, ceil_sqrt(n as nat) as int)
    }
}

/// A velocity component after one step: the force's velocity increment
/// (`force / mass`) is added, then friction takes its share.
pub open spec fn stepped_velocity(v: int, f: int, mass: int, friction: int) -> int {
    let accelerated = clamp_coord(v + trunc_div(f * UNIT, mass));
    trunc_div(accelerated * (UNIT - friction), UNIT as int)
}

/// A coordinate moved by `v` over `dt` (both fixed point).
pub open spec fn advanced_coord(x: int, v: int, dt: int) -> int {
    clamp_coord(x + trunc_div(v * dt, UNIT as int))
}

/// Dynamics of a moving entity. `fx`, `fy` is the force that the next step
/// applies; a new force replaces it.
#[derive(Clone, Copy, Debug, PartialEq, Eq, Structural)]
pub struct DynamicAttributes {
    pub vel_x: i64,
    pub vel_y: i64,
    pub mass: i64,
    pub friction: i64,
    pub fx: i64,
    pub fy: i64,
}

proof fn lemma_limited_force(fx: int, fy: int)
    requires
        norm_sq(fx, fy) > MAX_FORCE * MAX_FORCE,
    ensures
        norm_sq(limited_component(fx, fx, fy), limited_component(fy, fx, fy)) <= MAX_FORCE
            * MAX_FORCE,
{
    let n = norm_sq(fx, fy);
    let m = MAX_FORCE as int;
    crate::fixed::lemma_ceil_sqrt_holds(n as nat);
    let s = ceil_sqrt(n as nat) as int;
    let rx = limited_component(fx, fx, fy);
    let ry = limited_component(fy, fx, fy);
    lemma_trunc_div(fx * m, s);
    lemma_trunc_div(fy * m, s);
    let ax = abs_int(rx);
    let ay = abs_int(ry);
    assert(abs_int(fx * m) == abs_int(fx) * m) by (nonlinear_arith)
        requires
            m > 0,
    ;
    assert(abs_int(fy * m) == abs_int(fy) * m) by (nonlinear_arith)
        requires
            m > 0,
    ;
    assert(ax * ax * (s * s) <= fx * fx * (m * m)) by (nonlinear_arith)
        requires
            0 <= ax,
            ax * s <= abs_int(fx) * m,
            s >= 1,
            m > 0,
    ;
    assert(ay * ay * (s * s) <= fy * fy * (m * m)) by (nonlinear_arith)
        requires
            0 <= ay,
            ay * s <= abs_int(fy) * m,
            s >= 1,
            m > 0,
    ;
    assert(rx * rx == ax * ax) by (nonlinear_arith)
        requires
            ax == rx || ax == -rx,
    ;
    assert(ry * ry == ay * ay) by (nonlinear_arith)
        requires
            ay == ry || ay == -ry,
    ;
    assert(rx * rx + ry * ry <= m * m) by (nonlinear_arith)
        requires
            rx * rx * (s * s) + ry * ry * (s * s) <= (fx * fx + fy * fy) * (m * m),
            fx * fx + fy * fy <= s * s,
            s >= 1,
            m > 0,
    ;
}

proof fn lemma_force_components(fx: int, fy: int)
    requires
        norm_sq(fx, fy) <= MAX_FORCE * MAX_FORCE,
    ensures
        -MAX_FORCE <= fx <= MAX_FORCE,
        -MAX_FORCE <= fy <= MAX_FORCE,
{
    assert(fx * fx >= 0 && fy * fy >= 0) by (nonlinear_arith);
    assert(-MAX_FORCE <= fx <= MAX_FORCE) by (nonlinear_arith)
        requires
            fx * fx <= MAX_FORCE * MAX_FORCE,
    ;
    assert(-MAX_FORCE <= fy <= MAX_FORCE) by (nonlinear_arith)
        requires
            fy * fy <= MAX_FORCE * MAX_FORCE,
    ;
}

impl DynamicAttributes {
    /// The attributes that `new` builds.
    pub open spec fn new_spec(mass: i64, friction: i64) -> DynamicAttributes {
        DynamicAttributes {
            vel_x: 0,
            vel_y: 0,
            mass,
            friction: clamp_friction(friction as int) as i64,
            fx: 0,
            fy: 0,
        }
    }

    /// The attributes after `apply_force((fx, fy))`.
    pub open spec fn with_force(self, fx: i64, fy: i64) -> DynamicAttributes {
        DynamicAttributes {
            fx: limited_component(fx as int, fx as int, fy as int) as i64,
            fy: limited_component(fy as int, fx as int, fy as int) as i64,
            ..self
        }
    }

    /// The attributes and the entity's base after one step of `dt`.
    pub open spec fn stepped(self, base: GameObjectAttributes, dt: int) -> (
        DynamicAttributes,
        GameObjectAttributes,
    ) {
        let vx = stepped_velocity(
            self.vel_x as int,
            self.fx as int,
            self.mass as int,
            self.friction as int,
        );
        let vy = stepped_velocity(
            self.vel_y as int,
            self.fy as int,
            self.mass as int,
            self.friction as int,
        );
        (
            DynamicAttributes { vel_x: vx as i64, vel_y: vy as i64, ..self },
            GameObjectAttributes {
                x: advanced_coord(base.x as int, vx, dt) as i64,
                y: advanced_coord(base.y as int, vy, dt) as i64,
                ..base
            },
        )
    }

    /// Mass is positive, friction lies in `[0, 1]`, the velocity in the
    /// coordinate range and the pending force within `MAX_FORCE`.
    pub open spec fn wf(&self) -> bool {
        &&& self.mass > 0
        &&& 0 <= self.friction <= UNIT
        &&& in_coord_range(self.vel_x as int)
        &&& in_coord_range(self.vel_y as int)
        &&& norm_sq(self.fx as int, self.fy as int) <= MAX_FORCE * MAX_FORCE
    }

    /// At rest, with no pending force; the friction is clamped into `[0, 1]`.
    pub fn new(mass: i64, friction_0_1: i64) -> (r: Self)
        requires
            mass > 0,
        ensures
            r.wf(),
            r == Self::new_spec(mass, friction_0_1),
    {
        let mut r = DynamicAttributes { vel_x: 0, vel_y: 0, mass, friction: 0, fx: 0, fy: 0 };
        r.set_friction(friction_0_1);
        r
    }

    pub fn set_velocity(&mut self, velocity_xy: (i64, i64))
        requires
            in_coord_range(velocity_xy.0 as int),
            in_coord_range(velocity_xy.1 as int),
        ensures
            *final(self) == (DynamicAttributes {
                vel_x: velocity_xy.0,
                vel_y: velocity_xy.1,
                ..*old(self)
            }),
    {
        self.vel_x = velocity_xy.0;
        self.vel_y = velocity_xy.1;
    }

    /// Stores the friction clamped into `[0, 1]`, whatever the input.
    pub fn set_friction(&mut self, friction: i64)
        ensures
            *final(self) == (DynamicAttributes {
                friction: clamp_friction(friction as int) as i64,
                ..*old(self)
            }),
            0 <= final(self).friction <= UNIT,
    {
        if friction < 0 {
            self.friction = 0;
        } else if friction > UNIT {
            self.friction = UNIT;
        } else {
            self.friction = friction;
        }
    }

    /// Replaces the pending force by `force`, its magnitude limited to
    /// `MAX_FORCE` with its direction kept.
    pub fn apply_force(&mut self, force: (i64, i64))
        ensures
            *final(self) == old(self).with_force(force.0, force.1),
            old(self).wf() ==> final(self).wf(),
            norm_sq(final(self).fx as int, final(self).fy as int) <= MAX_FORCE * MAX_FORCE,
    {
        let (fx, fy) = force;
        proof {
            assert(fx * fx <= 0x4000_0000_0000_0000_0000_0000_0000_0000int) by (nonlinear_arith)
                requires
                    -0x8000_0000_0000_0000int <= fx <= 0x7fff_ffff_ffff_ffffint,
            ;
            assert(fy * fy <= 0x4000_0000_0000_0000_0000_0000_0000_0000int) by (nonlinear_arith)
                requires
                    -0x8000_0000_0000_0000int <= fy <= 0x7fff_ffff_ffff_ffffint,
            ;
            assert(fx * fx >= 0 && fy * fy >= 0) by (nonlinear_arith);
        }
        let sq_x = (fx as i128 * fx as i128) as u128;
        let sq_y = (fy as i128 * fy as i128) as u128;
        let n = sq_x + sq_y;
        let limit = (MAX_FORCE as u128) * (MAX_FORCE as u128);
        if n <= limit {
            self.fx = fx;
            self.fy = fy;
        } else {
            let s = ceil_sqrt_u128(n);
            let m = MAX_FORCE as i128;
            proof {
                lemma_limited_force(fx as int, fy as int);
                lemma_trunc_div(fx * MAX_FORCE, s as int);
                lemma_trunc_div(fy * MAX_FORCE, s as int);
            }
            let rx = div_toward_zero(fx as i128 * m, s as i128);
            let ry = div_toward_zero(fy as i128 * m, s as i128);
            proof {
                assert(rx * rx >= 0 && ry * ry >= 0) by (nonlinear_arith);
                assert(rx * rx <= MAX_FORCE * MAX_FORCE) by (nonlinear_arith)
                    requires
                        rx * rx + ry * ry <= MAX_FORCE * MAX_FORCE,
                ;
                assert(-MAX_FORCE <= rx <= MAX_FORCE) by (nonlinear_arith)
                    requires
                        rx * rx <= MAX_FORCE * MAX_FORCE,
                ;
                assert(ry * ry <= MAX_FORCE * MAX_FORCE) by (nonlinear_arith)
                    requires
                        rx * rx + ry * ry <= MAX_FORCE * MAX_FORCE,
                        rx * rx >= 0,
                ;
                assert(-MAX_FORCE <= ry <= MAX_FORCE) by (nonlinear_arith)
                    requires
                        ry * ry <= MAX_FORCE * MAX_FORCE,
                ;
            }
            self.fx = rx as i64;
            self.fy = ry as i64;
        }
    }

    /// One step of `delta_time`: the pending force adds `force / mass` to the
    /// velocity, friction scales it by `1 - friction`, and the position moves
    /// by `velocity * delta_time`. The pending force stays until replaced.
    pub fn update_position(&mut self, base: &mut GameObjectAttributes, delta_time: i64)
        requires
            old(self).wf(),
            old(base).wf(),
        ensures
            final(self).wf(),
            final(base).wf(),
            (*final(self), *final(base)) == old(self).stepped(*old(base), delta_time as int),
    {
        let (x, y) = base.get_position();
        proof {
            lemma_force_components(self.fx as int, self.fy as int);
        }
        let vx = self.step_component(self.vel_x, self.fx);
        let vy = self.step_component(self.vel_y, self.fy);
        self.vel_x = vx;
        self.vel_y = vy;
        let nx = advance(x, vx, delta_time);
        let ny = advance(y, vy, delta_time);
        base.set_position((nx, ny));
    }

    fn step_component(&self, v: i64, f: i64) -> (r: i64)
        requires
            self.wf(),
            in_coord_range(v as int),
            -MAX_FORCE <= f <= MAX_FORCE,
        ensures
            r == stepped_velocity(v as int, f as int, self.mass as int, self.friction as int),
            in_coord_range(r as int),
    {
        let unit = UNIT as i128;
        proof {
            assert(abs_int(f * UNIT) <= MAX_FORCE * UNIT * self.mass) by (nonlinear_arith)
                requires
                    -MAX_FORCE <= f <= MAX_FORCE,
                    self.mass >= 1,
            ;
            lemma_trunc_div_bounded(f * UNIT, self.mass as int, MAX_FORCE * UNIT);
        }
        let a = div_toward_zero(f as i128 * unit, self.mass as i128);
        let accelerated = clamp_to_coord(v as i128 + a);
        let kept = unit - self.friction as i128;
        proof {
            assert(abs_int(accelerated * kept) <= COORD_LIMIT * UNIT) by (nonlinear_arith)
                requires
                    -COORD_LIMIT <= accelerated <= COORD_LIMIT,
                    0 <= kept <= UNIT,
            ;
            lemma_trunc_div_bounded(accelerated * kept, UNIT as int, COORD_LIMIT as int);
        }
        let r = div_toward_zero(accelerated as i128 * kept, unit);
        r as i64
    }
}

/// `x` moved by velocity `v` over `dt`.
fn advance(x: i64, v: i64, dt: i64) -> (r: i64)
    requires
        in_coord_range(v as int),
    ensures
        r == advanced_coord(x as int, v as int, dt as int),
        in_coord_range(r as int),
{
    proof {
        assert(abs_int(v * dt) <= COORD_LIMIT * 0x8000_0000_0000_0000int) by (nonlinear_arith)
            requires
                -COORD_LIMIT <= v <= COORD_LIMIT,
                -0x8000_0000_0000_0000int <= dt <= 0x7fff_ffff_ffff_ffffint,
        ;
        lemma_trunc_div(v * dt, UNIT as int);
    }
    let moved = div_toward_zero(v as i128 * dt as i128, UNIT as i128);
    clamp_to_coord(x as i128 + moved)
}

} // verus!
