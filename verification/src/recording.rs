//! A driver back end that records every capability invocation instead of
//! touching hardware, for exercising the controller and the protocol.

use vstd::prelude::*;

use crate::color::RGB;
use crate::driver::{Driver, DriverCall, DriverCallView, KeyboardMode};

verus! {

/// Largest color sequence the recording back end pretends to accept,
/// mirroring the reference hardware.
pub const RECORDING_MAX_COLORS: usize = 7;

/// A back end that keeps each invocation in a vector and always succeeds,
/// except that it mirrors the reference device's cap on animated patterns.
pub struct RecordingDriver {
    log: Vec<DriverCall>,
}

impl RecordingDriver {
    pub fn new() -> (d: RecordingDriver)
        ensures
            d.calls() == Seq::<DriverCallView>::empty(),
            d.modes() == seq![
                KeyboardMode::ModeSteady,
                KeyboardMode::ModeBreathing,
                KeyboardMode::ModeColorshift,
            ],
    {
        let d = RecordingDriver { log: Vec::new() };
        proof {
            assert(d.calls() =~= Seq::<DriverCallView>::empty());
        }
        d
    }

    /// The recorded invocations, oldest first.
    pub fn recorded(&self) -> (log: &Vec<DriverCall>)
        ensures
            log@.map_values(|c: DriverCall| c@) == self.calls(),
    {
        &self.log
    }

    /// How many invocations were recorded.
    pub fn recorded_len(&self) -> (n: usize)
        ensures
            n == self.calls().len(),
    {
        self.log.len()
    }
}

impl Driver for RecordingDriver {
    closed spec fn calls(&self) -> Seq<DriverCallView> {
        self.log@.map_values(|c: DriverCall| c@)
    }

    open spec fn modes(&self) -> Seq<KeyboardMode> {
        seq![KeyboardMode::ModeSteady, KeyboardMode::ModeBreathing, KeyboardMode::ModeColorshift]
    }

    open spec fn max_colors(&self) -> int {
        RECORDING_MAX_COLORS as int
    }

    fn set_color(&mut self, color: &RGB, brightness: u8) -> (ok: bool)
        ensures
            ok,
    {
        self.log.push(DriverCall::Color(*color, brightness));
        proof {
            assert(self.calls() =~= old(self).calls().push(
                DriverCallView::Color(*color, brightness),
            ));
        }
        true
    }

    fn set_breathing(&mut self, colors: &Vec<RGB>, brightness: u8, speed: u8) -> (ok: bool)
        ensures
            ok == (colors@.len() <= RECORDING_MAX_COLORS),
    {
        let ok = colors.len() <= RECORDING_MAX_COLORS;
        let copy = clone_colors(colors);
        self.log.push(DriverCall::Breathing(copy, brightness, speed));
        proof {
            assert(self.calls() =~= old(self).calls().push(
                DriverCallView::Breathing(colors@, brightness, speed),
            ));
        }
        ok
    }

    fn set_shift(&mut self, colors: &Vec<RGB>, brightness: u8, speed: u8) -> (ok: bool)
        ensures
            ok == (colors@.len() <= RECORDING_MAX_COLORS),
    {
        let ok = colors.len() <= RECORDING_MAX_COLORS;
        let copy = clone_colors(colors);
        self.log.push(DriverCall::Shift(copy, brightness, speed));
        proof {
            assert(self.calls() =~= old(self).calls().push(
                DriverCallView::Shift(colors@, brightness, speed),
            ));
        }
        ok
    }

    fn set_power(&mut self, value: bool) -> (ok: bool)
        ensures
            ok,
    {
        self.log.push(DriverCall::Power(value));
        proof {
            assert(self.calls() =~= old(self).calls().push(DriverCallView::Power(value)));
        }
        true
    }

    fn get_modes(&self) -> (modes: Vec<KeyboardMode>) {
        let mut v: Vec<KeyboardMode> = Vec::new();
        v.push(KeyboardMode::ModeSteady);
        v.push(KeyboardMode::ModeBreathing);
        v.push(KeyboardMode::ModeColorshift);
        proof {
            assert(v@ =~= self.modes());
        }
        v
    }
}

/// Copies a color vector element by element.
fn clone_colors(colors: &Vec<RGB>) -> (r: Vec<RGB>)
    ensures
        r@ == colors@,
{
    let mut r: Vec<RGB> = Vec::new();
    let mut i: usize = 0;
    while i < colors.len()
        invariant
            i <= colors@.len(),
            r@ == colors@.take(i as int),
        decreases colors@.len() - i,
    {
        r.push(colors[i]);
        proof {
            assert(colors@.take(i + 1) =~= colors@.take(i as int).push(colors@[i as int]));
        }
        i += 1;
    }
    proof {
        assert(colors@.take(colors@.len() as int) =~= colors@);
    }
    r
}

} // verus!
