//! The hardware capability interface: what a lighting back end can do, and a
//! ghost record of every capability invocation made through it.

use vstd::prelude::*;

use crate::color::RGB;

verus! {

/// A lighting primitive a back end advertises.
#[derive(Clone, Copy, PartialEq, Eq, Structural, Debug)]
pub enum KeyboardMode {
    ModeSteady,
    ModeBreathing,
    ModeColorshift,
}

/// Wire byte for an advertised mode.
pub open spec fn driver_mode_u8(m: KeyboardMode) -> u8 {
    match m {
        KeyboardMode::ModeSteady => 0x00,
        KeyboardMode::ModeBreathing => 0x01,
        KeyboardMode::ModeColorshift => 0x02,
    }
}

impl KeyboardMode {
    pub fn to_u8(&self) -> (b: u8)
        ensures
            b == driver_mode_u8(*self),
    {
        match *self {
            KeyboardMode::ModeSteady => 0x00,
            KeyboardMode::ModeBreathing => 0x01,
            KeyboardMode::ModeColorshift => 0x02,
        }
    }
}

/// The byte encoding of an advertised mode list, one byte per mode.
pub open spec fn mode_bytes(modes: Seq<KeyboardMode>) -> Seq<u8> {
    modes.map_values(|m: KeyboardMode| driver_mode_u8(m))
}

/// Encodes an advertised mode list for the wire, one byte per mode.
pub fn modes_to_u8_vec(modes: &Vec<KeyboardMode>) -> (r: Vec<u8>)
    ensures
        r@ == mode_bytes(modes@),
{
    let mut r: Vec<u8> = Vec::new();
    let mut i: usize = 0;
    while i < modes.len()
        invariant
            i <= modes@.len(),
            r@ == mode_bytes(modes@.take(i as int)),
        decreases modes@.len() - i,
    {
        r.push(modes[i].to_u8());
        proof {
            assert(modes@.take(i + 1) =~= modes@.take(i as int).push(modes@[i as int]));
            assert(r@ =~= mode_bytes(modes@.take(i + 1)));
        }
        i += 1;
    }
    proof {
        assert(modes@.take(modes@.len() as int) =~= modes@);
    }
    r
}

/// One capability invocation, as a back end records it.
#[derive(Debug)]
pub enum DriverCall {
    Color(RGB, u8),
    Breathing(Vec<RGB>, u8, u8),
    Shift(Vec<RGB>, u8, u8),
    Power(bool),
}

/// Spec-level image of one capability invocation.
#[verifier::ext_equal]
pub enum DriverCallView {
    Color(RGB, u8),
    Breathing(Seq<RGB>, u8, u8),
    Shift(Seq<RGB>, u8, u8),
    Power(bool),
}

impl View for DriverCall {
    type V = DriverCallView;

    open spec fn view(&self) -> DriverCallView {
        match self {
            DriverCall::Color(c, b) => DriverCallView::Color(*c, *b),
            DriverCall::Breathing(cs, b, s) => DriverCallView::Breathing(cs@, *b, *s),
            DriverCall::Shift(cs, b, s) => DriverCallView::Shift(cs@, *b, *s),
            DriverCall::Power(v) => DriverCallView::Power(*v),
        }
    }
}

/// A hardware back end. Every capability method appends one record to
/// `calls()`, whatever the hardware made of it; the returned flag reports
/// transport success and is never promised, since the device may fail.
pub trait Driver: Sized {
    /// All capability invocations made so far, oldest first.
    spec fn calls(&self) -> Seq<DriverCallView>;

    /// The modes this device variant advertises.
    spec fn modes(&self) -> Seq<KeyboardMode>;

    /// Largest color sequence the device accepts for animated primitives.
    spec fn max_colors(&self) -> int;

    /// Apply one steady color.
    fn set_color(&mut self, color: &RGB, brightness: u8) -> (ok: bool)
        ensures
            final(self).calls() == old(self).calls().push(
                DriverCallView::Color(*color, brightness),
            ),
            final(self).modes() == old(self).modes(),
            final(self).max_colors() == old(self).max_colors(),
    ;

    /// Apply an animated breathing pattern; refused (not truncated) when the
    /// color sequence is longer than the device accepts.
    fn set_breathing(&mut self, colors: &Vec<RGB>, brightness: u8, speed: u8) -> (ok: bool)
        ensures
            final(self).calls() == old(self).calls().push(
                DriverCallView::Breathing(colors@, brightness, speed),
            ),
            final(self).modes() == old(self).modes(),
            final(self).max_colors() == old(self).max_colors(),
            colors@.len() > old(self).max_colors() ==> !ok,
    ;

    /// Apply an animated color-shift pattern; refused (not truncated) when the
    /// color sequence is longer than the device accepts.
    fn set_shift(&mut self, colors: &Vec<RGB>, brightness: u8, speed: u8) -> (ok: bool)
        ensures
            final(self).calls() == old(self).calls().push(
                DriverCallView::Shift(colors@, brightness, speed),
            ),
            final(self).modes() == old(self).modes(),
            final(self).max_colors() == old(self).max_colors(),
            colors@.len() > old(self).max_colors() ==> !ok,
    ;

    /// Hardware power on or off; a back end may not support powering on and
    /// must then report failure rather than fault.
    fn set_power(&mut self, value: bool) -> (ok: bool)
        ensures
            final(self).calls() == old(self).calls().push(DriverCallView::Power(value)),
            final(self).modes() == old(self).modes(),
            final(self).max_colors() == old(self).max_colors(),
    ;

    /// The advertised mode list, as values.
    fn get_modes(&self) -> (modes: Vec<KeyboardMode>)
        ensures
            modes@ == self.modes(),
    ;
}

} // verus!
