//! The keyboard state controller: owns the logical lighting state, pushes it
//! to a hardware back end, and round-trips it through a flat byte record.

use vstd::prelude::*;

use crate::color::{colors_bytes, lemma_colors_bytes_index, lemma_colors_bytes_len,
    lemma_colors_bytes_push, RGB};
use crate::driver::{Driver, DriverCallView, KeyboardMode};

verus! {

/// The logical lighting mode.
#[derive(Clone, Copy, PartialEq, Eq, Structural, Debug)]
pub enum KeyboardState {
    KeyboardOff,
    KeyboardSteady,
    KeyboardBreathing,
    KeyboardColorShift,
}

/// The persisted byte for a logical mode.
pub open spec fn state_to_u8_spec(s: KeyboardState) -> u8 {
    match s {
        KeyboardState::KeyboardOff => 0x00,
        KeyboardState::KeyboardSteady => 0x01,
        KeyboardState::KeyboardBreathing => 0x02,
        KeyboardState::KeyboardColorShift => 0x03,
    }
}

/// The logical mode a persisted byte stands for, if any.
pub open spec fn state_from_u8_spec(byte: u8) -> Option<KeyboardState> {
    if byte == 0x00 {
        Some(KeyboardState::KeyboardOff)
    } else if byte == 0x01 {
        Some(KeyboardState::KeyboardSteady)
    } else if byte == 0x02 {
        Some(KeyboardState::KeyboardBreathing)
    } else if byte == 0x03 {
        Some(KeyboardState::KeyboardColorShift)
    } else {
        None
    }
}

impl KeyboardState {
    pub fn from_u8(byte: u8) -> (s: Option<KeyboardState>)
        ensures
            s == state_from_u8_spec(byte),
    {
        if byte == 0x00 {
            Some(KeyboardState::KeyboardOff)
        } else if byte == 0x01 {
            Some(KeyboardState::KeyboardSteady)
        } else if byte == 0x02 {
            Some(KeyboardState::KeyboardBreathing)
        } else if byte == 0x03 {
            Some(KeyboardState::KeyboardColorShift)
        } else {
            None
        }
    }

    pub fn to_u8(state: KeyboardState) -> (b: u8)
        ensures
            b == state_to_u8_spec(state),
    {
        match state {
            KeyboardState::KeyboardOff => 0x00,
            KeyboardState::KeyboardSteady => 0x01,
            KeyboardState::KeyboardBreathing => 0x02,
            KeyboardState::KeyboardColorShift => 0x03,
        }
    }
}

/// The whole logical lighting state, as contracts see it.
#[verifier::ext_equal]
pub struct LightingState {
    pub mode: KeyboardState,
    pub colors: Seq<RGB>,
    pub brightness: u8,
    pub speed: u8,
    pub power: bool,
    pub auto_sync: bool,
}

/// A state the controller can push to hardware without faulting: a mode that
/// reads colors demands a nonempty color sequence.
pub open spec fn sync_ready(s: LightingState) -> bool {
    s.power && s.mode != KeyboardState::KeyboardOff ==> s.colors.len() > 0
}

/// The one capability invocation `sync` makes for a given state: powered-off
/// states always turn the hardware off, whatever the mode.
pub open spec fn sync_call(s: LightingState) -> DriverCallView {
    if !s.power {
        DriverCallView::Power(false)
    } else {
        match s.mode {
            KeyboardState::KeyboardOff => DriverCallView::Power(false),
            KeyboardState::KeyboardSteady => DriverCallView::Color(s.colors[0], s.brightness),
            KeyboardState::KeyboardBreathing => DriverCallView::Breathing(
                s.colors,
                s.brightness,
                s.speed,
            ),
            KeyboardState::KeyboardColorShift => DriverCallView::Shift(
                s.colors,
                s.brightness,
                s.speed,
            ),
        }
    }
}

/// Power-off precedence: a powered-off state syncs as the "off" primitive,
/// whatever mode and colors it holds.
pub proof fn lemma_power_off_precedence(s: LightingState)
    requires
        !s.power,
    ensures
        sync_call(s) == DriverCallView::Power(false),
{
}

/// The flat persistence record of a state: brightness, speed, mode byte,
/// power byte, color count, then three bytes per color. `auto_sync` is a
/// sequencing flag and is not persisted.
pub open spec fn state_bytes(s: LightingState) -> Seq<u8> {
    seq![
        s.brightness,
        s.speed,
        state_to_u8_spec(s.mode),
        (if s.power { 1u8 } else { 0u8 }),
        s.colors.len() as u8,
    ] + colors_bytes(s.colors)
}

/// The color starting at position `p` of a byte sequence.
pub open spec fn read_color(bytes: Seq<u8>, p: int) -> RGB {
    RGB { r: bytes[p], g: bytes[p + 1], b: bytes[p + 2] }
}

/// The `n` colors starting at position `p` of a byte sequence.
pub open spec fn read_colors(bytes: Seq<u8>, p: int, n: int) -> Seq<RGB>
    decreases n,
{
    if n <= 0 {
        seq![]
    } else {
        read_colors(bytes, p, n - 1).push(read_color(bytes, p + 3 * (n - 1)))
    }
}

/// What a persistence record holds, if it is well formed: brightness, speed,
/// mode, power, colors. Trailing bytes are ignored.
pub open spec fn parse_state(bytes: Seq<u8>) -> Option<(u8, u8, KeyboardState, bool, Seq<RGB>)> {
    if bytes.len() < 5 {
        None
    } else {
        match state_from_u8_spec(bytes[2]) {
            None => None,
            Some(mode) => {
                let n = bytes[4] as int;
                if bytes.len() < 5 + 3 * n {
                    None
                } else {
                    Some((bytes[0], bytes[1], mode, bytes[3] != 0, read_colors(bytes, 5, n)))
                }
            },
        }
    }
}

proof fn lemma_read_colors_of_colors_bytes(prefix: Seq<u8>, cs: Seq<RGB>, k: int)
    requires
        0 <= k <= cs.len(),
    ensures
        read_colors(prefix + colors_bytes(cs), prefix.len() as int, k) == cs.take(k),
    decreases k,
{
    let bytes = prefix + colors_bytes(cs);
    let p = prefix.len() as int;
    lemma_colors_bytes_len(cs);
    if k <= 0 {
        assert(read_colors(bytes, p, k) =~= cs.take(k));
    } else {
        lemma_read_colors_of_colors_bytes(prefix, cs, k - 1);
        lemma_colors_bytes_index(cs, k - 1);
        assert(bytes[p + 3 * (k - 1)] == colors_bytes(cs)[3 * (k - 1)]);
        assert(bytes[p + 3 * (k - 1) + 1] == colors_bytes(cs)[3 * (k - 1) + 1]);
        assert(bytes[p + 3 * (k - 1) + 2] == colors_bytes(cs)[3 * (k - 1) + 2]);
        assert(read_color(bytes, p + 3 * (k - 1)) == cs[k - 1]);
        assert(cs.take(k) =~= cs.take(k - 1).push(cs[k - 1]));
        assert(read_colors(bytes, p, k) =~= cs.take(k));
    }
}

/// Round trip: parsing the persistence record of any state whose color
/// sequence fits the record's one count byte yields exactly the persisted
/// fields of that state.
pub proof fn lemma_state_round_trip(s: LightingState)
    requires
        s.colors.len() <= 255,
    ensures
        parse_state(state_bytes(s)) == Some(
            (s.brightness, s.speed, s.mode, s.power, s.colors),
        ),
{
    let bytes = state_bytes(s);
    let n = s.colors.len() as int;
    lemma_colors_bytes_len(s.colors);
    assert(bytes.len() == 5 + 3 * n);
    assert(state_from_u8_spec(bytes[2]) == Some(s.mode));
    assert(bytes[4] as int == n);
    let head = seq![
        s.brightness,
        s.speed,
        state_to_u8_spec(s.mode),
        (if s.power { 1u8 } else { 0u8 }),
        s.colors.len() as u8,
    ];
    lemma_read_colors_of_colors_bytes(head, s.colors, n);
    assert(s.colors.take(n) =~= s.colors);
    assert((bytes[3] != 0) == s.power);
}

/// The controller: the logical state plus the back end that realizes it.
pub struct Keyboard<D: Driver> {
    driver: D,
    state: KeyboardState,
    colors: Vec<RGB>,
    brightness: u8,
    speed: u8,
    syncing: bool,
    power: bool,
}

impl<D: Driver> Keyboard<D> {
    /// The logical lighting state this controller holds.
    pub closed spec fn lighting(&self) -> LightingState {
        LightingState {
            mode: self.state,
            colors: self.colors@,
            brightness: self.brightness,
            speed: self.speed,
            power: self.power,
            auto_sync: self.syncing,
        }
    }

    /// Every capability invocation the back end has seen.
    pub closed spec fn driver_calls(&self) -> Seq<DriverCallView> {
        self.driver.calls()
    }

    /// The back end's advertised mode list.
    pub closed spec fn modes(&self) -> Seq<KeyboardMode> {
        self.driver.modes()
    }

    /// The color sequence always fits the persistence record's count byte.
    pub closed spec fn wf(&self) -> bool {
        self.colors@.len() <= 255
    }

    pub fn new(driver: D) -> (kb: Keyboard<D>)
        ensures
            kb.wf(),
            kb.lighting() == (LightingState {
                mode: KeyboardState::KeyboardOff,
                colors: seq![RGB { r: 0, g: 0, b: 0 }],
                brightness: 0,
                speed: 0,
                power: false,
                auto_sync: false,
            }),
            kb.driver_calls() == driver.calls(),
            kb.modes() == driver.modes(),
    {
        let mut colors: Vec<RGB> = Vec::new();
        colors.push(RGB::new(0, 0, 0));
        let kb = Keyboard {
            driver,
            state: KeyboardState::KeyboardOff,
            colors,
            brightness: 0,
            speed: 0,
            syncing: false,
            power: false,
        };
        proof {
            assert(kb.lighting().colors =~= seq![RGB { r: 0, g: 0, b: 0 }]);
            assert(kb.lighting() =~= (LightingState {
                mode: KeyboardState::KeyboardOff,
                colors: seq![RGB { r: 0, g: 0, b: 0 }],
                brightness: 0,
                speed: 0,
                power: false,
                auto_sync: false,
            }));
        }
        kb
    }

    /// Pushes the current state to hardware with exactly one capability
    /// invocation. A powered-off state issues the "off" primitive whatever
    /// the mode; a hardware refusal or failure is not escalated.
    pub fn sync(&mut self)
        requires
            old(self).wf(),
            sync_ready(old(self).lighting()),
        ensures
            final(self).wf(),
            final(self).lighting() == old(self).lighting(),
            final(self).modes() == old(self).modes(),
            final(self).driver_calls() == old(self).driver_calls().push(
                sync_call(old(self).lighting()),
            ),
    {
        if !self.power {
            self.driver.set_power(false);
            return ;
        }
        match self.state {
            KeyboardState::KeyboardOff => {
                self.driver.set_power(false);
            },
            KeyboardState::KeyboardSteady => {
                let c = self.colors[0];
                self.driver.set_color(&c, self.brightness);
            },
            KeyboardState::KeyboardBreathing => {
                self.driver.set_breathing(&self.colors, self.brightness, self.speed);
            },
            KeyboardState::KeyboardColorShift => {
                self.driver.set_shift(&self.colors, self.brightness, self.speed);
            },
        }
    }

    /// Suspends automatic syncing: mutators stop pushing to hardware.
    pub fn lock_sync(&mut self)
        ensures
            final(self).wf() == old(self).wf(),
            final(self).lighting() == (LightingState { auto_sync: false, ..old(self).lighting() }),
            final(self).modes() == old(self).modes(),
            final(self).driver_calls() == old(self).driver_calls(),
    {
        self.syncing = false;
    }

    /// Resumes automatic syncing: each mutator pushes to hardware at once.
    pub fn unlock_sync(&mut self)
        ensures
            final(self).wf() == old(self).wf(),
            final(self).lighting() == (LightingState { auto_sync: true, ..old(self).lighting() }),
            final(self).modes() == old(self).modes(),
            final(self).driver_calls() == old(self).driver_calls(),
    {
        self.syncing = true;
    }

    /// Selects the logical mode.
    pub fn set_state(&mut self, state: KeyboardState)
        requires
            old(self).wf(),
            old(self).lighting().auto_sync ==> sync_ready(
                LightingState { mode: state, ..old(self).lighting() },
            ),
        ensures
            final(self).wf(),
            final(self).lighting() == (LightingState { mode: state, ..old(self).lighting() }),
            final(self).modes() == old(self).modes(),
            final(self).driver_calls() == if old(self).lighting().auto_sync {
                old(self).driver_calls().push(sync_call(final(self).lighting()))
            } else {
                old(self).driver_calls()
            },
    {
        self.state = state;
        if self.syncing {
            self.sync();
        }
    }

    /// Replaces the whole color sequence with one color.
    pub fn set_color(&mut self, color: RGB)
        requires
            old(self).wf(),
        ensures
            final(self).wf(),
            final(self).lighting() == (LightingState {
                colors: seq![color],
                ..old(self).lighting()
            }),
            final(self).modes() == old(self).modes(),
            final(self).driver_calls() == if old(self).lighting().auto_sync {
                old(self).driver_calls().push(sync_call(final(self).lighting()))
            } else {
                old(self).driver_calls()
            },
    {
        let mut colors: Vec<RGB> = Vec::new();
        colors.push(color);
        self.colors = colors;
        proof {
            assert(self.lighting().colors =~= seq![color]);
        }
        if self.syncing {
            self.sync();
        }
    }

    /// Replaces the whole color sequence at once.
    pub fn set_colors(&mut self, colors: Vec<RGB>)
        requires
            old(self).wf(),
            colors@.len() <= 255,
            old(self).lighting().auto_sync ==> sync_ready(
                LightingState { colors: colors@, ..old(self).lighting() },
            ),
        ensures
            final(self).wf(),
            final(self).lighting() == (LightingState {
                colors: colors@,
                ..old(self).lighting()
            }),
            final(self).modes() == old(self).modes(),
            final(self).driver_calls() == if old(self).lighting().auto_sync {
                old(self).driver_calls().push(sync_call(final(self).lighting()))
            } else {
                old(self).driver_calls()
            },
    {
        self.colors = colors;
        if self.syncing {
            self.sync();
        }
    }

    /// Appends one color; the sequence must stay within the record's one
    /// count byte, which callers enforce at the point of mutation.
    pub fn add_color(&mut self, color: RGB)
        requires
            old(self).wf(),
            old(self).lighting().colors.len() < 255,
        ensures
            final(self).wf(),
            final(self).lighting() == (LightingState {
                colors: old(self).lighting().colors.push(color),
                ..old(self).lighting()
            }),
            final(self).modes() == old(self).modes(),
            final(self).driver_calls() == if old(self).lighting().auto_sync {
                old(self).driver_calls().push(sync_call(final(self).lighting()))
            } else {
                old(self).driver_calls()
            },
    {
        self.colors.push(color);
        if self.syncing {
            self.sync();
        }
    }

    /// Sets the logical brightness; back ends may clamp it further.
    pub fn set_brightness(&mut self, brightness: u8)
        requires
            old(self).wf(),
            old(self).lighting().auto_sync ==> sync_ready(old(self).lighting()),
        ensures
            final(self).wf(),
            final(self).lighting() == (LightingState {
                brightness,
                ..old(self).lighting()
            }),
            final(self).modes() == old(self).modes(),
            final(self).driver_calls() == if old(self).lighting().auto_sync {
                old(self).driver_calls().push(sync_call(final(self).lighting()))
            } else {
                old(self).driver_calls()
            },
    {
        self.brightness = brightness;
        if self.syncing {
            self.sync();
        }
    }

    /// Sets the logical animation speed; back ends may clamp it further.
    pub fn set_speed(&mut self, speed: u8)
        requires
            old(self).wf(),
            old(self).lighting().auto_sync ==> sync_ready(old(self).lighting()),
        ensures
            final(self).wf(),
            final(self).lighting() == (LightingState { speed, ..old(self).lighting() }),
            final(self).modes() == old(self).modes(),
            final(self).driver_calls() == if old(self).lighting().auto_sync {
                old(self).driver_calls().push(sync_call(final(self).lighting()))
            } else {
                old(self).driver_calls()
            },
    {
        self.speed = speed;
        if self.syncing {
            self.sync();
        }
    }

    /// Empties the color sequence; the caller must repopulate it before the
    /// next sync of a color-dependent mode.
    pub fn reset_colors(&mut self)
        ensures
            final(self).wf(),
            final(self).lighting() == (LightingState {
                colors: Seq::<RGB>::empty(),
                ..old(self).lighting()
            }),
            final(self).modes() == old(self).modes(),
            final(self).driver_calls() == old(self).driver_calls(),
    {
        self.colors = Vec::new();
        proof {
            assert(self.lighting().colors =~= Seq::<RGB>::empty());
        }
    }

    /// Sets logical power without an immediate hardware write.
    pub fn set_power(&mut self, power: bool)
        ensures
            final(self).wf() == old(self).wf(),
            final(self).lighting() == (LightingState { power, ..old(self).lighting() }),
            final(self).modes() == old(self).modes(),
            final(self).driver_calls() == old(self).driver_calls(),
    {
        self.power = power;
    }

    /// Flips logical power without an immediate hardware write.
    pub fn toggle_power(&mut self)
        ensures
            final(self).wf() == old(self).wf(),
            final(self).lighting() == (LightingState {
                power: !old(self).lighting().power,
                ..old(self).lighting()
            }),
            final(self).modes() == old(self).modes(),
            final(self).driver_calls() == old(self).driver_calls(),
    {
        self.power = !self.power;
    }

    /// The back end's advertised mode list.
    pub fn get_color_modes(&self) -> (modes: Vec<KeyboardMode>)
        ensures
            modes@ == self.modes(),
    {
        self.driver.get_modes()
    }

    /// How many colors the sequence holds.
    pub fn colors_len(&self) -> (n: usize)
        ensures
            n == self.lighting().colors.len(),
    {
        self.colors.len()
    }

    /// A borrow of the back end, for inspecting what reached it.
    pub fn driver(&self) -> (d: &D)
        ensures
            d.calls() == self.driver_calls(),
            d.modes() == self.modes(),
    {
        &self.driver
    }

    /// Serializes the state into its flat persistence record.
    pub fn save_state(&self) -> (buf: Vec<u8>)
        requires
            self.wf(),
        ensures
            buf@ == state_bytes(self.lighting()),
    {
        let mut buf: Vec<u8> = Vec::new();
        buf.push(self.brightness);
        buf.push(self.speed);
        buf.push(KeyboardState::to_u8(self.state));
        buf.push(if self.power { 1 } else { 0 });
        buf.push(self.colors.len() as u8);
        let ghost head = buf@;
        let mut i: usize = 0;
        while i < self.colors.len()
            invariant
                self.wf(),
                i <= self.colors@.len(),
                buf@ == head + colors_bytes(self.colors@.take(i as int)),
            decreases self.colors@.len() - i,
        {
            let c = self.colors[i];
            buf.push(c.r);
            buf.push(c.g);
            buf.push(c.b);
            proof {
                lemma_colors_bytes_push(self.colors@.take(i as int), self.colors@[i as int]);
                assert(self.colors@.take(i + 1) =~= self.colors@.take(i as int).push(
                    self.colors@[i as int],
                ));
                assert(buf@ =~= head + colors_bytes(self.colors@.take(i + 1)));
            }
            i += 1;
        }
        proof {
            assert(self.colors@.take(self.colors@.len() as int) =~= self.colors@);
            assert(buf@ =~= state_bytes(self.lighting()));
        }
        buf
    }

    /// Overwrites the persisted fields from a record; leaves the state
    /// untouched and reports failure when the record is malformed. The
    /// sequencing flag is never part of a record.
    pub fn load_state(&mut self, buf: &Vec<u8>) -> (ok: bool)
        requires
            old(self).wf(),
        ensures
            final(self).wf(),
            final(self).modes() == old(self).modes(),
            final(self).driver_calls() == old(self).driver_calls(),
            match parse_state(buf@) {
                Some((brightness, speed, mode, power, colors)) => ok && final(self).lighting()
                    == (LightingState {
                    mode,
                    colors,
                    brightness,
                    speed,
                    power,
                    auto_sync: old(self).lighting().auto_sync,
                }),
                None => !ok && final(self).lighting() == old(self).lighting(),
            },
    {
        if buf.len() < 5 {
            return false;
        }
        let brightness = buf[0];
        let speed = buf[1];
        let mode = match KeyboardState::from_u8(buf[2]) {
            Some(m) => m,
            None => {
                return false;
            },
        };
        let power = buf[3] != 0;
        let n = buf[4] as usize;
        if (buf.len() - 5) / 3 < n {
            proof {
                assert(buf@.len() < 5 + 3 * (buf@[4] as int));
            }
            return false;
        }
        proof {
            assert(buf@.len() >= 5 + 3 * (buf@[4] as int));
        }
        let mut colors: Vec<RGB> = Vec::new();
        let mut i: usize = 0;
        while i < n
            invariant
                n <= 255,
                buf@.len() >= 5 + 3 * n,
                i <= n,
                colors@.len() == i,
                colors@ == read_colors(buf@, 5, i as int),
            decreases n - i,
        {
            let c = RGB::new(buf[5 + 3 * i], buf[5 + 3 * i + 1], buf[5 + 3 * i + 2]);
            colors.push(c);
            i += 1;
        }
        self.brightness = brightness;
        self.speed = speed;
        self.state = mode;
        self.power = power;
        self.colors = colors;
        true
    }

    /// Applies a persisted record when one was found; a missing record
    /// leaves the state untouched.
    pub fn load_state_if_exists(&mut self, record: &Option<Vec<u8>>) -> (ok: bool)
        requires
            old(self).wf(),
        ensures
            final(self).wf(),
            final(self).modes() == old(self).modes(),
            final(self).driver_calls() == old(self).driver_calls(),
            match *record {
                Some(buf) => match parse_state(buf@) {
                    Some((brightness, speed, mode, power, colors)) => ok && final(self).lighting()
                        == (LightingState {
                        mode,
                        colors,
                        brightness,
                        speed,
                        power,
                        auto_sync: old(self).lighting().auto_sync,
                    }),
                    None => !ok && final(self).lighting() == old(self).lighting(),
                },
                None => !ok && final(self).lighting() == old(self).lighting(),
            },
    {
        match record {
            Some(buf) => self.load_state(buf),
            None => false,
        }
    }
}

} // verus!
