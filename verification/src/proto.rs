//! The protocol dispatcher: decodes a variable-length command stream into
//! controller mutations, batches hardware writes behind the sync lock, and
//! produces a structured response. A spec-level interpreter (`run_msg`) gives
//! the exact meaning of every message.

use vstd::prelude::*;

use crate::color::RGB;
use crate::driver::{mode_bytes, Driver, DriverCallView, KeyboardMode};
use crate::keyboard::{read_color, read_colors, state_bytes, sync_call, Keyboard, KeyboardState,
    LightingState};
use crate::response::{ProtoResponse, ProtoResponseState, ResponseView};

verus! {

/// A decoded command byte.
#[derive(Clone, Copy, PartialEq, Eq, Structural, Debug)]
pub enum ProtoCmd {
    CmdColors,
    CmdSetColor,
    CmdAddColor,
    CmdBrightness,
    CmdSpeed,
    CmdMode,
    CmdSyncState,
    CmdPower,
    CmdToggle,
    CmdReqModesAvail,
}

/// The command a byte stands for, if any.
pub open spec fn proto_cmd_from_u8(cmd: u8) -> Option<ProtoCmd> {
    if cmd == 0x00 {
        Some(ProtoCmd::CmdColors)
    } else if cmd == 0x01 {
        Some(ProtoCmd::CmdSetColor)
    } else if cmd == 0x02 {
        Some(ProtoCmd::CmdAddColor)
    } else if cmd == 0x03 {
        Some(ProtoCmd::CmdBrightness)
    } else if cmd == 0x04 {
        Some(ProtoCmd::CmdSpeed)
    } else if cmd == 0x05 {
        Some(ProtoCmd::CmdMode)
    } else if cmd == 0x06 {
        Some(ProtoCmd::CmdSyncState)
    } else if cmd == 0x07 {
        Some(ProtoCmd::CmdPower)
    } else if cmd == 0x08 {
        Some(ProtoCmd::CmdToggle)
    } else if cmd == 0x09 {
        Some(ProtoCmd::CmdReqModesAvail)
    } else {
        None
    }
}

impl ProtoCmd {
    pub fn from_u8(cmd: u8) -> (r: Option<ProtoCmd>)
        ensures
            r == proto_cmd_from_u8(cmd),
    {
        if cmd == 0x00 {
            Some(ProtoCmd::CmdColors)
        } else if cmd == 0x01 {
            Some(ProtoCmd::CmdSetColor)
        } else if cmd == 0x02 {
            Some(ProtoCmd::CmdAddColor)
        } else if cmd == 0x03 {
            Some(ProtoCmd::CmdBrightness)
        } else if cmd == 0x04 {
            Some(ProtoCmd::CmdSpeed)
        } else if cmd == 0x05 {
            Some(ProtoCmd::CmdMode)
        } else if cmd == 0x06 {
            Some(ProtoCmd::CmdSyncState)
        } else if cmd == 0x07 {
            Some(ProtoCmd::CmdPower)
        } else if cmd == 0x08 {
            Some(ProtoCmd::CmdToggle)
        } else if cmd == 0x09 {
            Some(ProtoCmd::CmdReqModesAvail)
        } else {
            None
        }
    }
}

/// A logical mode named on the wire.
#[derive(Clone, Copy, PartialEq, Eq, Structural, Debug)]
pub enum ProtoKeyboardMode {
    ModeOff,
    ModeSteady,
    ModeBreathing,
    ModeColorShift,
}

/// The wire mode a byte stands for, if any.
pub open spec fn proto_mode_from_u8(byte: u8) -> Option<ProtoKeyboardMode> {
    if byte == 0x00 {
        Some(ProtoKeyboardMode::ModeOff)
    } else if byte == 0x01 {
        Some(ProtoKeyboardMode::ModeSteady)
    } else if byte == 0x02 {
        Some(ProtoKeyboardMode::ModeBreathing)
    } else if byte == 0x03 {
        Some(ProtoKeyboardMode::ModeColorShift)
    } else {
        None
    }
}

/// The controller mode a wire mode selects.
pub open spec fn proto_mode_to_state(m: ProtoKeyboardMode) -> KeyboardState {
    match m {
        ProtoKeyboardMode::ModeOff => KeyboardState::KeyboardOff,
        ProtoKeyboardMode::ModeSteady => KeyboardState::KeyboardSteady,
        ProtoKeyboardMode::ModeBreathing => KeyboardState::KeyboardBreathing,
        ProtoKeyboardMode::ModeColorShift => KeyboardState::KeyboardColorShift,
    }
}

impl ProtoKeyboardMode {
    pub fn from_u8(byte: u8) -> (r: Option<ProtoKeyboardMode>)
        ensures
            r == proto_mode_from_u8(byte),
    {
        if byte == 0x00 {
            Some(ProtoKeyboardMode::ModeOff)
        } else if byte == 0x01 {
            Some(ProtoKeyboardMode::ModeSteady)
        } else if byte == 0x02 {
            Some(ProtoKeyboardMode::ModeBreathing)
        } else if byte == 0x03 {
            Some(ProtoKeyboardMode::ModeColorShift)
        } else {
            None
        }
    }

    pub fn to_state(&self) -> (s: KeyboardState)
        ensures
            s == proto_mode_to_state(*self),
    {
        match *self {
            ProtoKeyboardMode::ModeOff => KeyboardState::KeyboardOff,
            ProtoKeyboardMode::ModeSteady => KeyboardState::KeyboardSteady,
            ProtoKeyboardMode::ModeBreathing => KeyboardState::KeyboardBreathing,
            ProtoKeyboardMode::ModeColorShift => KeyboardState::KeyboardColorShift,
        }
    }
}

/// The state with automatic syncing suspended.
pub open spec fn lock_of(s: LightingState) -> LightingState {
    LightingState { auto_sync: false, ..s }
}

/// The state with automatic syncing resumed.
pub open spec fn unlock_of(s: LightingState) -> LightingState {
    LightingState { auto_sync: true, ..s }
}

/// The hardware calls one mutation triggers: one immediate sync when
/// automatic syncing is on, none when it is suspended.
pub open spec fn mut_calls(s: LightingState) -> Seq<DriverCallView> {
    if s.auto_sync {
        seq![sync_call(s)]
    } else {
        seq![]
    }
}

/// Bulk color replacement: one count byte, then that many color triples; a
/// zero count is rejected as ambiguous.
pub open spec fn apply_colors(s: LightingState, bytes: Seq<u8>, p: int) -> Option<
    (LightingState, int),
> {
    if p < bytes.len() && bytes[p] != 0 && p + 1 + 3 * (bytes[p] as int) <= bytes.len() {
        Some(
            (
                LightingState { colors: read_colors(bytes, p + 1, bytes[p] as int), ..s },
                p + 1 + 3 * (bytes[p] as int),
            ),
        )
    } else {
        None
    }
}

/// One color triple replacing the whole sequence.
pub open spec fn apply_set_color(s: LightingState, bytes: Seq<u8>, p: int) -> Option<
    (LightingState, int),
> {
    if p + 3 <= bytes.len() {
        Some((LightingState { colors: seq![read_color(bytes, p)], ..s }, p + 3))
    } else {
        None
    }
}

/// One color triple appended; rejected when the sequence is full.
pub open spec fn apply_add_color(s: LightingState, bytes: Seq<u8>, p: int) -> Option<
    (LightingState, int),
> {
    if p + 3 <= bytes.len() && s.colors.len() < 255 {
        Some((LightingState { colors: s.colors.push(read_color(bytes, p)), ..s }, p + 3))
    } else {
        None
    }
}

/// One brightness byte.
pub open spec fn apply_brightness(s: LightingState, bytes: Seq<u8>, p: int) -> Option<
    (LightingState, int),
> {
    if p + 1 <= bytes.len() {
        Some((LightingState { brightness: bytes[p], ..s }, p + 1))
    } else {
        None
    }
}

/// One speed byte.
pub open spec fn apply_speed(s: LightingState, bytes: Seq<u8>, p: int) -> Option<
    (LightingState, int),
> {
    if p + 1 <= bytes.len() {
        Some((LightingState { speed: bytes[p], ..s }, p + 1))
    } else {
        None
    }
}

/// One mode byte; an unnamed mode is rejected.
pub open spec fn apply_mode(s: LightingState, bytes: Seq<u8>, p: int) -> Option<
    (LightingState, int),
> {
    if p + 1 <= bytes.len() {
        match proto_mode_from_u8(bytes[p]) {
            Some(m) => Some((LightingState { mode: proto_mode_to_state(m), ..s }, p + 1)),
            None => None,
        }
    } else {
        None
    }
}

/// One sync-lock byte: zero resumes automatic syncing, nonzero suspends it.
pub open spec fn apply_lock(s: LightingState, bytes: Seq<u8>, p: int) -> Option<
    (LightingState, int),
> {
    if p + 1 <= bytes.len() {
        Some((LightingState { auto_sync: bytes[p] == 0, ..s }, p + 1))
    } else {
        None
    }
}

/// One power byte: zero off, nonzero on.
pub open spec fn apply_power(s: LightingState, bytes: Seq<u8>, p: int) -> Option<
    (LightingState, int),
> {
    if p + 1 <= bytes.len() {
        Some((LightingState { power: bytes[p] != 0, ..s }, p + 1))
    } else {
        None
    }
}

/// What one command does: the state after it, the next buffer position, the
/// hardware calls it triggered, and any data it added to the response.
#[verifier::ext_equal]
pub struct CmdEffect {
    pub state: LightingState,
    pub next: int,
    pub calls: Seq<DriverCallView>,
    pub data: Seq<u8>,
    pub set_data: bool,
}

/// Wraps a mutation that syncs immediately when automatic syncing is on.
pub open spec fn effect_sync(r: Option<(LightingState, int)>) -> Option<CmdEffect> {
    match r {
        Some((s2, q)) => Some(
            CmdEffect { state: s2, next: q, calls: mut_calls(s2), data: seq![], set_data: false },
        ),
        None => None,
    }
}

/// Wraps a mutation that never syncs immediately.
pub open spec fn effect_quiet(r: Option<(LightingState, int)>) -> Option<CmdEffect> {
    match r {
        Some((s2, q)) => Some(
            CmdEffect { state: s2, next: q, calls: seq![], data: seq![], set_data: false },
        ),
        None => None,
    }
}

/// The meaning of one command byte `cmd` whose arguments start at `p`.
pub open spec fn apply_cmd(
    s: LightingState,
    modes: Seq<KeyboardMode>,
    bytes: Seq<u8>,
    p: int,
    cmd: u8,
) -> Option<CmdEffect> {
    if cmd == 0x00 {
        effect_sync(apply_colors(s, bytes, p))
    } else if cmd == 0x01 {
        effect_sync(apply_set_color(s, bytes, p))
    } else if cmd == 0x02 {
        effect_sync(apply_add_color(s, bytes, p))
    } else if cmd == 0x03 {
        effect_sync(apply_brightness(s, bytes, p))
    } else if cmd == 0x04 {
        effect_sync(apply_speed(s, bytes, p))
    } else if cmd == 0x05 {
        effect_sync(apply_mode(s, bytes, p))
    } else if cmd == 0x06 {
        effect_quiet(apply_lock(s, bytes, p))
    } else if cmd == 0x07 {
        effect_quiet(apply_power(s, bytes, p))
    } else if cmd == 0x08 {
        Some(
            CmdEffect {
                state: LightingState { power: !s.power, ..s },
                next: p,
                calls: seq![],
                data: seq![],
                set_data: false,
            },
        )
    } else if cmd == 0x09 {
        Some(
            CmdEffect {
                state: s,
                next: p,
                calls: seq![],
                data: mode_bytes(modes),
                set_data: true,
            },
        )
    } else {
        None
    }
}

/// How the command loop ends: a parse failure, or completion with the final
/// state, the hardware calls made, the gathered data, and whether any
/// command switched the response to the data variant.
#[verifier::ext_equal]
pub enum LoopOut {
    Bad(LightingState, Seq<DriverCallView>),
    Fine(LightingState, Seq<DriverCallView>, Seq<u8>, bool),
}

/// Prepends one command's effect to the rest of the loop's outcome.
pub open spec fn combine_effect(e: CmdEffect, rest: LoopOut) -> LoopOut {
    match rest {
        LoopOut::Bad(s, c) => LoopOut::Bad(s, e.calls + c),
        LoopOut::Fine(s, c, d, h) => LoopOut::Fine(s, e.calls + c, e.data + d, e.set_data || h),
    }
}

/// The command loop from position `p`: reads a command byte, applies the
/// command, and continues at its next position until the buffer ends or a
/// command fails to parse.
pub open spec fn run_loop(
    s: LightingState,
    modes: Seq<KeyboardMode>,
    bytes: Seq<u8>,
    p: int,
) -> LoopOut
    decreases bytes.len() - p,
{
    if p < 0 || p >= bytes.len() {
        LoopOut::Fine(s, seq![], seq![], false)
    } else {
        match apply_cmd(s, modes, bytes, p + 1, bytes[p]) {
            None => LoopOut::Bad(s, seq![]),
            Some(e) => if e.next <= p {
                LoopOut::Bad(s, seq![])
            } else {
                combine_effect(e, run_loop(e.state, modes, bytes, e.next))
            },
        }
    }
}

/// Accumulated calls, data and data-flag prefixed onto a loop outcome.
pub open spec fn prefix_out(
    calls: Seq<DriverCallView>,
    data: Seq<u8>,
    hd: bool,
    rest: LoopOut,
) -> LoopOut {
    match rest {
        LoopOut::Bad(s, c) => LoopOut::Bad(s, calls + c),
        LoopOut::Fine(s, c, d, h) => LoopOut::Fine(s, calls + c, data + d, hd || h),
    }
}

/// What one whole message does: the state it leaves, the hardware calls it
/// makes, and the response it returns.
#[verifier::ext_equal]
pub struct MsgOut {
    pub state: LightingState,
    pub calls: Seq<DriverCallView>,
    pub resp: ResponseView,
}

/// The meaning of one message: an empty buffer is an error; otherwise the
/// command loop runs with automatic syncing suspended, and on success
/// syncing is resumed and exactly one final sync is issued.
pub open spec fn run_msg(s: LightingState, modes: Seq<KeyboardMode>, bytes: Seq<u8>) -> MsgOut {
    if bytes.len() == 0 {
        MsgOut { state: s, calls: seq![], resp: ResponseView::RespError }
    } else {
        match run_loop(lock_of(s), modes, bytes, 0) {
            LoopOut::Bad(s1, c1) => MsgOut {
                state: s1,
                calls: c1,
                resp: ResponseView::RespBadRequest,
            },
            LoopOut::Fine(s1, c1, d1, h1) => MsgOut {
                state: unlock_of(s1),
                calls: c1.push(sync_call(unlock_of(s1))),
                resp: if h1 {
                    ResponseView::RespData(d1)
                } else {
                    ResponseView::RespOk
                },
            },
        }
    }
}

fn proto_handle_colors<D: Driver>(
    keyboard: &mut Keyboard<D>,
    buffer: &Vec<u8>,
    buffer_ptr: usize,
) -> (r: usize)
    requires
        old(keyboard).wf(),
        old(keyboard).lighting().colors.len() >= 1,
        1 <= buffer_ptr <= buffer@.len(),
    ensures
        final(keyboard).wf(),
        final(keyboard).lighting().colors.len() >= 1,
        final(keyboard).modes() == old(keyboard).modes(),
        match apply_colors(old(keyboard).lighting(), buffer@, buffer_ptr as int) {
            None => r == 0 && final(keyboard).lighting() == old(keyboard).lighting()
                && final(keyboard).driver_calls() == old(keyboard).driver_calls(),
            Some((s2, q)) => r as int == q && final(keyboard).lighting() == s2
                && final(keyboard).driver_calls() == old(keyboard).driver_calls() + mut_calls(s2),
        },
{
    if buffer_ptr >= buffer.len() {
        return 0;
    }
    let n = buffer[buffer_ptr] as usize;
    if n == 0 {
        return 0;
    }
    let mut colors: Vec<RGB> = Vec::new();
    let mut q: usize = buffer_ptr + 1;
    let mut i: usize = 0;
    while i < n
        invariant
            keyboard.wf(),
            keyboard.lighting() == old(keyboard).lighting(),
            keyboard.lighting().colors.len() >= 1,
            keyboard.driver_calls() == old(keyboard).driver_calls(),
            keyboard.modes() == old(keyboard).modes(),
            1 <= n <= 255,
            i <= n,
            1 <= buffer_ptr,
            buffer_ptr + 1 <= buffer@.len(),
            n == buffer@[buffer_ptr as int] as usize,
            q == buffer_ptr + 1 + 3 * i,
            q <= buffer@.len(),
            colors@ == read_colors(buffer@, buffer_ptr + 1, i as int),
            colors@.len() == i,
        decreases n - i,
    {
        if buffer.len() - q < 3 {
            proof {
                assert(buffer@.len() < buffer_ptr + 1 + 3 * n);
            }
            return 0;
        }
        let c = RGB::new(buffer[q], buffer[q + 1], buffer[q + 2]);
        colors.push(c);
        q += 3;
        i += 1;
    }
    keyboard.set_colors(colors);
    q
}

fn proto_handle_set_color<D: Driver>(
    keyboard: &mut Keyboard<D>,
    buffer: &Vec<u8>,
    buffer_ptr: usize,
) -> (r: usize)
    requires
        old(keyboard).wf(),
        old(keyboard).lighting().colors.len() >= 1,
        1 <= buffer_ptr <= buffer@.len(),
    ensures
        final(keyboard).wf(),
        final(keyboard).lighting().colors.len() >= 1,
        final(keyboard).modes() == old(keyboard).modes(),
        match apply_set_color(old(keyboard).lighting(), buffer@, buffer_ptr as int) {
            None => r == 0 && final(keyboard).lighting() == old(keyboard).lighting()
                && final(keyboard).driver_calls() == old(keyboard).driver_calls(),
            Some((s2, q)) => r as int == q && final(keyboard).lighting() == s2
                && final(keyboard).driver_calls() == old(keyboard).driver_calls() + mut_calls(s2),
        },
{
    if buffer.len() - buffer_ptr < 3 {
        return 0;
    }
    let c = RGB::new(buffer[buffer_ptr], buffer[buffer_ptr + 1], buffer[buffer_ptr + 2]);
    keyboard.set_color(c);
    buffer_ptr + 3
}

fn proto_handle_add_color<D: Driver>(
    keyboard: &mut Keyboard<D>,
    buffer: &Vec<u8>,
    buffer_ptr: usize,
) -> (r: usize)
    requires
        old(keyboard).wf(),
        old(keyboard).lighting().colors.len() >= 1,
        1 <= buffer_ptr <= buffer@.len(),
    ensures
        final(keyboard).wf(),
        final(keyboard).lighting().colors.len() >= 1,
        final(keyboard).modes() == old(keyboard).modes(),
        match apply_add_color(old(keyboard).lighting(), buffer@, buffer_ptr as int) {
            None => r == 0 && final(keyboard).lighting() == old(keyboard).lighting()
                && final(keyboard).driver_calls() == old(keyboard).driver_calls(),
            Some((s2, q)) => r as int == q && final(keyboard).lighting() == s2
                && final(keyboard).driver_calls() == old(keyboard).driver_calls() + mut_calls(s2),
        },
{
    if buffer.len() - buffer_ptr < 3 {
        return 0;
    }
    if keyboard.colors_len() >= 255 {
        return 0;
    }
    let c = RGB::new(buffer[buffer_ptr], buffer[buffer_ptr + 1], buffer[buffer_ptr + 2]);
    keyboard.add_color(c);
    buffer_ptr + 3
}

fn proto_handle_set_brightness<D: Driver>(
    keyboard: &mut Keyboard<D>,
    buffer: &Vec<u8>,
    buffer_ptr: usize,
) -> (r: usize)
    requires
        old(keyboard).wf(),
        old(keyboard).lighting().colors.len() >= 1,
        1 <= buffer_ptr <= buffer@.len(),
    ensures
        final(keyboard).wf(),
        final(keyboard).lighting().colors.len() >= 1,
        final(keyboard).modes() == old(keyboard).modes(),
        match apply_brightness(old(keyboard).lighting(), buffer@, buffer_ptr as int) {
            None => r == 0 && final(keyboard).lighting() == old(keyboard).lighting()
                && final(keyboard).driver_calls() == old(keyboard).driver_calls(),
            Some((s2, q)) => r as int == q && final(keyboard).lighting() == s2
                && final(keyboard).driver_calls() == old(keyboard).driver_calls() + mut_calls(s2),
        },
{
    if buffer_ptr >= buffer.len() {
        return 0;
    }
    keyboard.set_brightness(buffer[buffer_ptr]);
    buffer_ptr + 1
}

fn proto_handle_set_speed<D: Driver>(
    keyboard: &mut Keyboard<D>,
    buffer: &Vec<u8>,
    buffer_ptr: usize,
) -> (r: usize)
    requires
        old(keyboard).wf(),
        old(keyboard).lighting().colors.len() >= 1,
        1 <= buffer_ptr <= buffer@.len(),
    ensures
        final(keyboard).wf(),
        final(keyboard).lighting().colors.len() >= 1,
        final(keyboard).modes() == old(keyboard).modes(),
        match apply_speed(old(keyboard).lighting(), buffer@, buffer_ptr as int) {
            None => r == 0 && final(keyboard).lighting() == old(keyboard).lighting()
                && final(keyboard).driver_calls() == old(keyboard).driver_calls(),
            Some((s2, q)) => r as int == q && final(keyboard).lighting() == s2
                && final(keyboard).driver_calls() == old(keyboard).driver_calls() + mut_calls(s2),
        },
{
    if buffer_ptr >= buffer.len() {
        return 0;
    }
    keyboard.set_speed(buffer[buffer_ptr]);
    buffer_ptr + 1
}

fn proto_handle_set_mode<D: Driver>(
    keyboard: &mut Keyboard<D>,
    buffer: &Vec<u8>,
    buffer_ptr: usize,
) -> (r: usize)
    requires
        old(keyboard).wf(),
        old(keyboard).lighting().colors.len() >= 1,
        1 <= buffer_ptr <= buffer@.len(),
    ensures
        final(keyboard).wf(),
        final(keyboard).lighting().colors.len() >= 1,
        final(keyboard).modes() == old(keyboard).modes(),
        match apply_mode(old(keyboard).lighting(), buffer@, buffer_ptr as int) {
            None => r == 0 && final(keyboard).lighting() == old(keyboard).lighting()
                && final(keyboard).driver_calls() == old(keyboard).driver_calls(),
            Some((s2, q)) => r as int == q && final(keyboard).lighting() == s2
                && final(keyboard).driver_calls() == old(keyboard).driver_calls() + mut_calls(s2),
        },
{
    if buffer_ptr >= buffer.len() {
        return 0;
    }
    match ProtoKeyboardMode::from_u8(buffer[buffer_ptr]) {
        Some(mode) => {
            keyboard.set_state(mode.to_state());
            buffer_ptr + 1
        },
        None => 0,
    }
}

fn proto_handle_set_lock<D: Driver>(
    keyboard: &mut Keyboard<D>,
    buffer: &Vec<u8>,
    buffer_ptr: usize,
) -> (r: usize)
    requires
        old(keyboard).wf(),
        old(keyboard).lighting().colors.len() >= 1,
        1 <= buffer_ptr <= buffer@.len(),
    ensures
        final(keyboard).wf(),
        final(keyboard).lighting().colors.len() >= 1,
        final(keyboard).modes() == old(keyboard).modes(),
        final(keyboard).driver_calls() == old(keyboard).driver_calls(),
        match apply_lock(old(keyboard).lighting(), buffer@, buffer_ptr as int) {
            None => r == 0 && final(keyboard).lighting() == old(keyboard).lighting(),
            Some((s2, q)) => r as int == q && final(keyboard).lighting() == s2,
        },
{
    if buffer_ptr >= buffer.len() {
        return 0;
    }
    if buffer[buffer_ptr] == 0 {
        keyboard.unlock_sync();
    } else {
        keyboard.lock_sync();
    }
    buffer_ptr + 1
}

fn proto_handle_set_power<D: Driver>(
    keyboard: &mut Keyboard<D>,
    buffer: &Vec<u8>,
    buffer_ptr: usize,
) -> (r: usize)
    requires
        old(keyboard).wf(),
        old(keyboard).lighting().colors.len() >= 1,
        1 <= buffer_ptr <= buffer@.len(),
    ensures
        final(keyboard).wf(),
        final(keyboard).lighting().colors.len() >= 1,
        final(keyboard).modes() == old(keyboard).modes(),
        final(keyboard).driver_calls() == old(keyboard).driver_calls(),
        match apply_power(old(keyboard).lighting(), buffer@, buffer_ptr as int) {
            None => r == 0 && final(keyboard).lighting() == old(keyboard).lighting(),
            Some((s2, q)) => r as int == q && final(keyboard).lighting() == s2,
        },
{
    if buffer_ptr >= buffer.len() {
        return 0;
    }
    keyboard.set_power(buffer[buffer_ptr] != 0);
    buffer_ptr + 1
}

fn proto_handle_toggle_power<D: Driver>(
    keyboard: &mut Keyboard<D>,
    buffer: &Vec<u8>,
    buffer_ptr: usize,
) -> (r: usize)
    requires
        old(keyboard).wf(),
        old(keyboard).lighting().colors.len() >= 1,
        1 <= buffer_ptr <= buffer@.len(),
    ensures
        final(keyboard).wf(),
        final(keyboard).lighting().colors.len() >= 1,
        final(keyboard).modes() == old(keyboard).modes(),
        final(keyboard).driver_calls() == old(keyboard).driver_calls(),
        r == buffer_ptr,
        final(keyboard).lighting() == (LightingState {
            power: !old(keyboard).lighting().power,
            ..old(keyboard).lighting()
        }),
{
    keyboard.toggle_power();
    buffer_ptr
}

fn proto_handle_request_modes<D: Driver>(
    keyboard: &Keyboard<D>,
    buffer: &Vec<u8>,
    buffer_ptr: usize,
    response: &mut ProtoResponse,
) -> (r: usize)
    requires
        1 <= buffer_ptr <= buffer@.len(),
    ensures
        r == buffer_ptr,
        final(response).wf(),
        final(response).resp_state() == ProtoResponseState::ResultData,
        final(response).payload() == old(response).payload() + mode_bytes(keyboard.modes()),
        final(response)@ == ResponseView::RespData(
            old(response).payload() + mode_bytes(keyboard.modes()),
        ),
{
    let modes = keyboard.get_color_modes();
    let bytes = crate::driver::modes_to_u8_vec(&modes);
    response.add_response(bytes);
    buffer_ptr
}

proof fn lemma_prefix_step(
    calls: Seq<DriverCallView>,
    data: Seq<u8>,
    hd: bool,
    e: CmdEffect,
    rest: LoopOut,
)
    ensures
        prefix_out(calls, data, hd, combine_effect(e, rest)) == prefix_out(
            calls + e.calls,
            data + e.data,
            hd || e.set_data,
            rest,
        ),
{
    match rest {
        LoopOut::Bad(s, c) => {
            assert(calls + (e.calls + c) =~= (calls + e.calls) + c);
            assert(prefix_out(calls, data, hd, combine_effect(e, rest)) =~= prefix_out(
                calls + e.calls,
                data + e.data,
                hd || e.set_data,
                rest,
            ));
        },
        LoopOut::Fine(s, c, d, h) => {
            assert(calls + (e.calls + c) =~= (calls + e.calls) + c);
            assert(data + (e.data + d) =~= (data + e.data) + d);
            assert(prefix_out(calls, data, hd, combine_effect(e, rest)) =~= prefix_out(
                calls + e.calls,
                data + e.data,
                hd || e.set_data,
                rest,
            ));
        },
    }
}

proof fn lemma_loop_step(
    s0: LightingState,
    modes: Seq<KeyboardMode>,
    bytes: Seq<u8>,
    acc: Seq<DriverCallView>,
    data: Seq<u8>,
    hd: bool,
    pre: LightingState,
    p: int,
    e: CmdEffect,
)
    requires
        0 <= p < bytes.len(),
        apply_cmd(pre, modes, bytes, p + 1, bytes[p]) == Some(e),
        e.next > p,
        run_loop(s0, modes, bytes, 0) == prefix_out(acc, data, hd, run_loop(pre, modes, bytes, p)),
    ensures
        run_loop(s0, modes, bytes, 0) == prefix_out(
            acc + e.calls,
            data + e.data,
            hd || e.set_data,
            run_loop(e.state, modes, bytes, e.next),
        ),
{
    assert(run_loop(pre, modes, bytes, p) == combine_effect(
        e,
        run_loop(e.state, modes, bytes, e.next),
    ));
    lemma_prefix_step(acc, data, hd, e, run_loop(e.state, modes, bytes, e.next));
}

/// Processes one message: suspends automatic syncing, applies each command
/// in turn, and on success resumes syncing and issues exactly one final
/// hardware sync. The outcome is exactly `run_msg` on the incoming state.
pub fn proto_handle_message<D: Driver>(keyboard: &mut Keyboard<D>, buffer: &Vec<u8>) -> (resp:
    ProtoResponse)
    requires
        old(keyboard).wf(),
        old(keyboard).lighting().colors.len() >= 1,
    ensures
        final(keyboard).wf(),
        final(keyboard).lighting().colors.len() >= 1,
        final(keyboard).modes() == old(keyboard).modes(),
        resp.wf(),
        ({
            let out = run_msg(old(keyboard).lighting(), old(keyboard).modes(), buffer@);
            &&& final(keyboard).lighting() == out.state
            &&& final(keyboard).driver_calls() == old(keyboard).driver_calls() + out.calls
            &&& resp@ == out.resp
        }),
{
    let ghost start = old(keyboard).lighting();
    let ghost modes = old(keyboard).modes();
    let ghost base = old(keyboard).driver_calls();
    if buffer.len() == 0 {
        let r = ProtoResponse::from_state(ProtoResponseState::ResultError);
        proof {
            assert(base + Seq::<DriverCallView>::empty() =~= base);
        }
        return r;
    }
    keyboard.lock_sync();
    let ghost s0 = keyboard.lighting();
    proof {
        assert(s0 =~= lock_of(start));
    }
    let mut proto_response = ProtoResponse::from_state(ProtoResponseState::ResultError);
    let mut buffer_ptr: usize = 0;
    let ghost mut acc_calls: Seq<DriverCallView> = seq![];
    proof {
        assert(base + acc_calls =~= base);
        assert(prefix_out(
            acc_calls,
            proto_response.payload(),
            false,
            run_loop(s0, modes, buffer@, 0),
        ) =~= run_loop(s0, modes, buffer@, 0)) by {
            match run_loop(s0, modes, buffer@, 0) {
                LoopOut::Bad(s, c) => {
                    assert(acc_calls + c =~= c);
                },
                LoopOut::Fine(s, c, d, h) => {
                    assert(acc_calls + c =~= c);
                    assert(proto_response.payload() + d =~= d);
                },
            }
        }
    }
    while buffer_ptr < buffer.len()
        invariant
            start == old(keyboard).lighting(),
            modes == old(keyboard).modes(),
            base == old(keyboard).driver_calls(),
            s0 == lock_of(start),
            buffer@.len() > 0,
            keyboard.wf(),
            keyboard.lighting().colors.len() >= 1,
            keyboard.modes() == modes,
            buffer_ptr <= buffer@.len(),
            proto_response.wf(),
            proto_response.resp_state() != ProtoResponseState::ResultData ==> proto_response.payload()
                == Seq::<u8>::empty(),
            proto_response.resp_state() == ProtoResponseState::ResultData ==> proto_response@
                == ResponseView::RespData(proto_response.payload()),
            keyboard.driver_calls() == base + acc_calls,
            run_loop(s0, modes, buffer@, 0) == prefix_out(
                acc_calls,
                proto_response.payload(),
                proto_response.resp_state() == ProtoResponseState::ResultData,
                run_loop(keyboard.lighting(), modes, buffer@, buffer_ptr as int),
            ),
        decreases buffer@.len() - buffer_ptr,
    {
        let ghost pre = keyboard.lighting();
        let ghost p = buffer_ptr as int;
        let ghost data_before = proto_response.payload();
        let ghost hd_before = proto_response.resp_state() == ProtoResponseState::ResultData;
        let cmd_byte = buffer[buffer_ptr];
        buffer_ptr = buffer_ptr + 1;
        let cmd = match ProtoCmd::from_u8(cmd_byte) {
            Some(c) => c,
            None => {
                proof {
                    assert(run_loop(pre, modes, buffer@, p) == LoopOut::Bad(
                        pre,
                        Seq::<DriverCallView>::empty(),
                    ));
                    assert(acc_calls + Seq::<DriverCallView>::empty() =~= acc_calls);
                }
                return ProtoResponse::from_state(ProtoResponseState::ResultBadRequest);
            },
        };
        let new_ptr = match cmd {
            ProtoCmd::CmdColors => proto_handle_colors(keyboard, buffer, buffer_ptr),
            ProtoCmd::CmdSetColor => proto_handle_set_color(keyboard, buffer, buffer_ptr),
            ProtoCmd::CmdAddColor => proto_handle_add_color(keyboard, buffer, buffer_ptr),
            ProtoCmd::CmdBrightness => proto_handle_set_brightness(keyboard, buffer, buffer_ptr),
            ProtoCmd::CmdSpeed => proto_handle_set_speed(keyboard, buffer, buffer_ptr),
            ProtoCmd::CmdMode => proto_handle_set_mode(keyboard, buffer, buffer_ptr),
            ProtoCmd::CmdSyncState => proto_handle_set_lock(keyboard, buffer, buffer_ptr),
            ProtoCmd::CmdPower => proto_handle_set_power(keyboard, buffer, buffer_ptr),
            ProtoCmd::CmdToggle => proto_handle_toggle_power(keyboard, buffer, buffer_ptr),
            ProtoCmd::CmdReqModesAvail => proto_handle_request_modes(
                keyboard,
                buffer,
                buffer_ptr,
                &mut proto_response,
            ),
        };
        if new_ptr == 0 {
            proof {
                assert(apply_cmd(pre, modes, buffer@, p + 1, cmd_byte) is None);
                assert(run_loop(pre, modes, buffer@, p) == LoopOut::Bad(
                    pre,
                    Seq::<DriverCallView>::empty(),
                ));
                assert(acc_calls + Seq::<DriverCallView>::empty() =~= acc_calls);
            }
            return ProtoResponse::from_state(ProtoResponseState::ResultBadRequest);
        }
        proof {
            let e = apply_cmd(pre, modes, buffer@, p + 1, cmd_byte).unwrap();
            assert(e.next > p);
            assert(keyboard.lighting() == e.state);
            assert(new_ptr as int == e.next);
            assert(keyboard.driver_calls() == (base + acc_calls) + e.calls);
            assert((base + acc_calls) + e.calls =~= base + (acc_calls + e.calls));
            assert(proto_response.payload() == data_before + e.data);
            assert((proto_response.resp_state() == ProtoResponseState::ResultData) == (hd_before
                || e.set_data));
            lemma_loop_step(s0, modes, buffer@, acc_calls, data_before, hd_before, pre, p, e);
            acc_calls = acc_calls + e.calls;
        }
        buffer_ptr = new_ptr;
    }
    proof {
        assert(run_loop(keyboard.lighting(), modes, buffer@, buffer_ptr as int) == LoopOut::Fine(
            keyboard.lighting(),
            Seq::<DriverCallView>::empty(),
            Seq::<u8>::empty(),
            false,
        ));
        assert(acc_calls + Seq::<DriverCallView>::empty() =~= acc_calls);
        assert(proto_response.payload() + Seq::<u8>::empty() =~= proto_response.payload());
    }
    let ghost s_end = keyboard.lighting();
    if !proto_response.is_data() {
        proto_response = ProtoResponse::from_state(ProtoResponseState::ResultOk);
    }
    keyboard.unlock_sync();
    proof {
        assert(keyboard.lighting() =~= unlock_of(s_end));
    }
    keyboard.sync();
    proof {
        assert((base + acc_calls).push(sync_call(unlock_of(s_end))) =~= base + acc_calls.push(
            sync_call(unlock_of(s_end)),
        ));
    }
    proto_response
}

/// The span one command occupies, command byte included, judged from the
/// bytes alone; meaningful wherever the command parses.
pub open spec fn cmd_width(bytes: Seq<u8>, p: int) -> int {
    let cmd = bytes[p];
    if cmd == 0x00 {
        if p + 1 < bytes.len() {
            2 + 3 * (bytes[p + 1] as int)
        } else {
            2
        }
    } else if cmd == 0x01 || cmd == 0x02 {
        4
    } else if 0x03 <= cmd && cmd <= 0x07 {
        2
    } else {
        1
    }
}

/// No command of the stream, walked span by span from `p`, is a sync-lock
/// command: the stream cannot resume automatic syncing mid-message.
pub open spec fn no_sync_lock(bytes: Seq<u8>, p: int) -> bool
    decreases bytes.len() - p,
{
    if p < 0 || p >= bytes.len() {
        true
    } else if bytes[p] == 0x06 {
        false
    } else if p + cmd_width(bytes, p) >= bytes.len() {
        true
    } else {
        no_sync_lock(bytes, p + cmd_width(bytes, p))
    }
}

proof fn lemma_run_loop_locked(s: LightingState, modes: Seq<KeyboardMode>, bytes: Seq<u8>, p: int)
    requires
        !s.auto_sync,
        no_sync_lock(bytes, p),
    ensures
        match run_loop(s, modes, bytes, p) {
            LoopOut::Bad(s2, c) => c == Seq::<DriverCallView>::empty() && !s2.auto_sync,
            LoopOut::Fine(s2, c, d, h) => c == Seq::<DriverCallView>::empty() && !s2.auto_sync,
        },
    decreases bytes.len() - p,
{
    if 0 <= p < bytes.len() {
        let cmd = bytes[p];
        match apply_cmd(s, modes, bytes, p + 1, cmd) {
            None => {
            },
            Some(e) => {
                if e.next > p {
                    assert(cmd != 0x06);
                    assert(!e.state.auto_sync);
                    assert(e.calls =~= Seq::<DriverCallView>::empty());
                    assert(e.next == p + cmd_width(bytes, p));
                    assert(no_sync_lock(bytes, e.next));
                    lemma_run_loop_locked(e.state, modes, bytes, e.next);
                    match run_loop(e.state, modes, bytes, e.next) {
                        LoopOut::Bad(s2, c) => {
                            assert(e.calls + c =~= Seq::<DriverCallView>::empty());
                        },
                        LoopOut::Fine(s2, c, d, h) => {
                            assert(e.calls + c =~= Seq::<DriverCallView>::empty());
                        },
                    }
                }
            },
        }
    }
}

/// Batching: a message that never resumes automatic syncing mid-stream
/// triggers no per-command hardware write, however many mutating commands
/// it holds. A successful message issues exactly the one final sync; a
/// rejected one issues none.
pub proof fn lemma_message_batching(s: LightingState, modes: Seq<KeyboardMode>, bytes: Seq<u8>)
    requires
        bytes.len() > 0,
        no_sync_lock(bytes, 0),
    ensures
        ({
            let out = run_msg(s, modes, bytes);
            &&& (out.resp is RespBadRequest) ==> out.calls.len() == 0
            &&& !(out.resp is RespBadRequest) ==> out.calls.len() == 1
        }),
{
    lemma_run_loop_locked(lock_of(s), modes, bytes, 0);
}

/// A modes request alone answers with exactly the advertised mode list,
/// whatever the controller state holds.
pub proof fn lemma_request_modes(s: LightingState, modes: Seq<KeyboardMode>)
    ensures
        run_msg(s, modes, seq![0x09u8]).resp == ResponseView::RespData(mode_bytes(modes)),
{
    let bytes: Seq<u8> = seq![0x09u8];
    assert(bytes[0] == 0x09);
    let e = apply_cmd(lock_of(s), modes, bytes, 1, 0x09).unwrap();
    assert(run_loop(e.state, modes, bytes, 1) == LoopOut::Fine(
        e.state,
        Seq::<DriverCallView>::empty(),
        Seq::<u8>::empty(),
        false,
    ));
    assert(e.data + Seq::<u8>::empty() =~= mode_bytes(modes));
    assert(run_msg(s, modes, bytes).resp =~= ResponseView::RespData(mode_bytes(modes)));
}

/// A message opening with an unknown command byte is rejected with no
/// hardware call and no change to the persisted state.
pub proof fn lemma_unknown_command(s: LightingState, modes: Seq<KeyboardMode>, bytes: Seq<u8>)
    requires
        bytes.len() > 0,
        proto_cmd_from_u8(bytes[0]) is None,
    ensures
        run_msg(s, modes, bytes).resp == ResponseView::RespBadRequest,
        run_msg(s, modes, bytes).calls == Seq::<DriverCallView>::empty(),
        state_bytes(run_msg(s, modes, bytes).state) == state_bytes(s),
{
    assert(apply_cmd(lock_of(s), modes, bytes, 1, bytes[0]) is None);
    assert(run_loop(lock_of(s), modes, bytes, 0) == LoopOut::Bad(
        lock_of(s),
        Seq::<DriverCallView>::empty(),
    ));
    assert(state_bytes(lock_of(s)) =~= state_bytes(s));
}

} // verus!
