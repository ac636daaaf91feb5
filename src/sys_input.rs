//! Turns the state of the keyboard and of the gamepads into the frame's
//! input events. Reading the devices is left to the caller.
use crate::dynamic::MAX_FORCE;
use crate::event::Event;
use crate::fixed::{abs_int, div_toward_zero, lemma_trunc_div_bounded, trunc_div, UNIT};
use crate::objects::PlayerMode;
use vstd::prelude::*;

verus! {

/// Stick deflections below this magnitude (`0.1`) count as centred.
pub const STICK_DEADZONE: i64 = 100;

/// Which keys matter this frame. Player 0 steers with the arrow keys and
/// holds right Ctrl for `NoClip`; player 1 steers with W, A, S, D and holds
/// left Shift.
#[derive(Clone, Copy, Debug, Default, PartialEq, Eq, Structural)]
pub struct KeyboardState {
    pub right: bool,
    pub left: bool,
    pub up: bool,
    pub down: bool,
    pub right_control_down: bool,
    pub right_control_released: bool,
    pub d: bool,
    pub a: bool,
    pub w: bool,
    pub s: bool,
    pub left_shift_down: bool,
    pub left_shift_released: bool,
}

/// State of one gamepad: whether its lower action button is held, and the
/// left stick's deflection, fixed point in `[-1, 1]` (y points up).
#[derive(Clone, Copy, Debug, PartialEq, Eq, Structural)]
pub struct GamepadState {
    pub action_down: bool,
    pub left_stick_x: i64,
    pub left_stick_y: i64,
}

impl GamepadState {
    pub open spec fn wf(&self) -> bool {
        &&& -UNIT <= self.left_stick_x <= UNIT
        &&& -UNIT <= self.left_stick_y <= UNIT
    }
}

/// Full force on the positive side when `pos` is held, on the negative side
/// when `neg` is held; both cancel.
pub open spec fn key_axis(pos: bool, neg: bool) -> int {
    (if pos {
        MAX_FORCE as int
    } else {
        0
    }) - (if neg {
        MAX_FORCE as int
    } else {
        0
    })
}

/// Forces `(fx0, fy0, fx1, fy1)` that the keyboard asks of players 0 and 1.
pub open spec fn keyboard_forces(k: KeyboardState) -> (int, int, int, int) {
    (key_axis(k.right, k.left), key_axis(k.down, k.up), key_axis(k.d, k.a), key_axis(k.s, k.w))
}

pub open spec fn mode_event(id: u32, mode: PlayerMode, when: bool) -> Seq<Event> {
    if when {
        seq![Event::SetPlayerMode { id, mode }]
    } else {
        Seq::empty()
    }
}

/// Mode changes the keyboard asks for, in order.
pub open spec fn keyboard_events(k: KeyboardState) -> Seq<Event> {
    mode_event(0, PlayerMode::NoClip, k.right_control_down) + mode_event(
        0,
        PlayerMode::Normal,
        k.right_control_released,
    ) + mode_event(1, PlayerMode::NoClip, k.left_shift_down) + mode_event(
        1,
        PlayerMode::Normal,
        k.left_shift_released,
    )
}

/// Force along one axis for a stick deflection: `MAX_FORCE` times the
/// deflection, or nothing inside the dead zone.
pub open spec fn stick_force(v: int) -> int {
    if abs_int(v) >= STICK_DEADZONE {
        trunc_div(MAX_FORCE * v, UNIT as int)
    } else {
        0
    }
}

/// Force that gamepad `i` of `pads` asks for, if there is one.
pub open spec fn pad_force(pads: Seq<GamepadState>, i: int) -> (int, int) {
    if i < pads.len() {
        (stick_force(pads[i].left_stick_x as int), stick_force(-pads[i].left_stick_y))
    } else {
        (0, 0)
    }
}

/// One mode event per gamepad, in order: gamepad `i` sets player `i` to
/// `NoClip` while its action button is held and to `Normal` otherwise.
pub open spec fn gamepad_events(pads: Seq<GamepadState>) -> Seq<Event> {
    Seq::new(
        pads.len(),
        |i: int|
            Event::SetPlayerMode {
                id: i as u32,
                mode: if pads[i].action_down {
                    PlayerMode::NoClip
                } else {
                    PlayerMode::Normal
                },
            },
    )
}

/// The frame's input events: the gamepads' mode events, the keyboard's mode
/// events, then one move event for player 0 and one for player 1 with the
/// sum of the gamepad and keyboard forces.
pub open spec fn input_events(pads: Seq<GamepadState>, k: KeyboardState) -> Seq<Event> {
    let kf = keyboard_forces(k);
    let g0 = pad_force(pads, 0);
    let g1 = pad_force(pads, 1);
    gamepad_events(pads) + keyboard_events(k) + seq![
        Event::MovePlayer { id: 0, fx: (g0.0 + kf.0) as i64, fy: (g0.1 + kf.1) as i64 },
        Event::MovePlayer { id: 1, fx: (g1.0 + kf.2) as i64, fy: (g1.1 + kf.3) as i64 },
    ]
}

/// Turns device state into events.
pub struct SysInput {}

impl SysInput {
    pub fn new() -> (r: Self) {
        SysInput {}
    }

    fn stick(v: i64) -> (r: i64)
        requires
            -UNIT <= v <= UNIT,
        ensures
            r == stick_force(v as int),
            -MAX_FORCE <= r <= MAX_FORCE,
    {
        if v >= STICK_DEADZONE || v <= -STICK_DEADZONE {
            proof {
                assert(abs_int(MAX_FORCE * v) <= MAX_FORCE * UNIT) by (nonlinear_arith)
                    requires
                        -UNIT <= v <= UNIT,
                ;
                lemma_trunc_div_bounded(MAX_FORCE * v, UNIT as int, MAX_FORCE as int);
            }
            div_toward_zero(MAX_FORCE as i128 * v as i128, UNIT as i128) as i64
        } else {
            0
        }
    }

    /// Appends the gamepads' mode events to `out` and returns the forces
    /// `(fx0, fy0, fx1, fy1)` that the first two gamepads ask for.
    fn process_gamepads(&self, gamepads: &Vec<GamepadState>, out: &mut Vec<Event>) -> (r: (
        i64,
        i64,
        i64,
        i64,
    ))
        requires
            gamepads@.len() <= u32::MAX,
            forall|i: int| 0 <= i < gamepads@.len() ==> #[trigger] gamepads@[i].wf(),
        ensures
            final(out)@ == old(out)@ + gamepad_events(gamepads@),
            r.0 == pad_force(gamepads@, 0).0,
            r.1 == pad_force(gamepads@, 0).1,
            r.2 == pad_force(gamepads@, 1).0,
            r.3 == pad_force(gamepads@, 1).1,
            -MAX_FORCE <= r.0 <= MAX_FORCE && -MAX_FORCE <= r.1 <= MAX_FORCE,
            -MAX_FORCE <= r.2 <= MAX_FORCE && -MAX_FORCE <= r.3 <= MAX_FORCE,
    {
        let (mut fx1, mut fy1): (i64, i64) = (0, 0);
        let (mut fx2, mut fy2): (i64, i64) = (0, 0);
        let ghost out0 = out@;
        let mut i: usize = 0;
        while i < gamepads.len()
            invariant
                i <= gamepads@.len() <= u32::MAX,
                forall|k: int| 0 <= k < gamepads@.len() ==> #[trigger] gamepads@[k].wf(),
                out@ == out0 + gamepad_events(gamepads@.subrange(0, i as int)),
                (fx1 as int, fy1 as int) == pad_force(gamepads@.subrange(0, i as int), 0),
                (fx2 as int, fy2 as int) == pad_force(gamepads@.subrange(0, i as int), 1),
                -MAX_FORCE <= fx1 <= MAX_FORCE && -MAX_FORCE <= fy1 <= MAX_FORCE,
                -MAX_FORCE <= fx2 <= MAX_FORCE && -MAX_FORCE <= fy2 <= MAX_FORCE,
            decreases gamepads@.len() - i,
        {
            let pad = gamepads[i];
            assert(pad.wf());
            let mode = if pad.action_down {
                PlayerMode::NoClip
            } else {
                PlayerMode::Normal
            };
            out.push(Event::SetPlayerMode { id: i as u32, mode });
            let new_fx = Self::stick(pad.left_stick_x);
            let new_fy = Self::stick(-pad.left_stick_y);
            if i == 0 {
                fx1 = new_fx;
                fy1 = new_fy;
            } else if i == 1 {
                fx2 = new_fx;
                fy2 = new_fy;
            }
            proof {
                let pre = gamepads@.subrange(0, i as int);
                let post = gamepads@.subrange(0, i + 1);
                assert(gamepad_events(post) =~= gamepad_events(pre).push(
                    Event::SetPlayerMode { id: i as u32, mode },
                ));
                assert(post[i as int] == pad);
                if i > 0 {
                    assert(post[0] == pre[0]);
                }
                if i > 1 {
                    assert(post[1] == pre[1]);
                }
            }
            i += 1;
        }
        proof {
            assert(gamepads@.subrange(0, i as int) =~= gamepads@);
        }
        (fx1, fy1, fx2, fy2)
    }

    /// Force along one axis from a pair of opposite keys.
    fn axis(pos: bool, neg: bool) -> (r: i64)
        ensures
            r == key_axis(pos, neg),
    {
        let mut f: i64 = 0;
        if pos {
            f += MAX_FORCE;
        }
        if neg {
            f -= MAX_FORCE;
        }
        f
    }

    fn push_mode(out: &mut Vec<Event>, id: u32, mode: PlayerMode, when: bool)
        ensures
            final(out)@ == old(out)@ + mode_event(id, mode, when),
    {
        if when {
            out.push(Event::SetPlayerMode { id, mode });
        }
        proof {
            assert(out@ =~= old(out)@ + mode_event(id, mode, when));
        }
    }

    /// Appends the keyboard's mode events to `out` and returns the forces
    /// `(fx0, fy0, fx1, fy1)` that it asks of players 0 and 1.
    fn process_keyboard(&self, keys: &KeyboardState, out: &mut Vec<Event>) -> (r: (
        i64,
        i64,
        i64,
        i64,
    ))
        ensures
            final(out)@ == old(out)@ + keyboard_events(*keys),
            (r.0 as int, r.1 as int, r.2 as int, r.3 as int) == keyboard_forces(*keys),
    {
        let ghost out0 = out@;
        let fx1 = Self::axis(keys.right, keys.left);
        let fy1 = Self::axis(keys.down, keys.up);
        Self::push_mode(out, 0, PlayerMode::NoClip, keys.right_control_down);
        Self::push_mode(out, 0, PlayerMode::Normal, keys.right_control_released);
        let fx2 = Self::axis(keys.d, keys.a);
        let fy2 = Self::axis(keys.s, keys.w);
        Self::push_mode(out, 1, PlayerMode::NoClip, keys.left_shift_down);
        Self::push_mode(out, 1, PlayerMode::Normal, keys.left_shift_released);
        proof {
            assert(out@ =~= out0 + keyboard_events(*keys));
        }
        (fx1, fy1, fx2, fy2)
    }

    /// The frame's input events for the given gamepads and keyboard.
    pub fn read_input(&self, gamepads: &Vec<GamepadState>, keys: &KeyboardState) -> (r: Vec<
        Event,
    >)
        requires
            gamepads@.len() <= u32::MAX,
            forall|i: int| 0 <= i < gamepads@.len() ==> #[trigger] gamepads@[i].wf(),
        ensures
            r@ == input_events(gamepads@, *keys),
    {
        let mut out: Vec<Event> = Vec::new();
        let (g_fx1, g_fy1, g_fx2, g_fy2) = self.process_gamepads(gamepads, &mut out);
        let (k_fx1, k_fy1, k_fx2, k_fy2) = self.process_keyboard(keys, &mut out);
        out.push(Event::MovePlayer { id: 0, fx: g_fx1 + k_fx1, fy: g_fy1 + k_fy1 });
        out.push(Event::MovePlayer { id: 1, fx: g_fx2 + k_fx2, fy: g_fy2 + k_fy2 });
        proof {
            assert(out@ =~= input_events(gamepads@, *keys));
        }
        out
    }
}

} // verus!
