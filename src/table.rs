//! The pin table: a fixed number of pins, configured and written through
//! checked operations that never leave a partial change behind.
use vstd::prelude::*;
use crate::pin::{Pin, PinMode, PinValue, PIN_COUNT, initial_pin};
use crate::text::{decimal, decimal_text, mode_label, mode_text, value_label, value_text};

verus! {

/// Why a table operation was refused.
#[derive(PartialEq, Eq, Structural, Clone, Copy, Debug)]
pub enum PinError {
    /// The pin index is not below the table's capacity.
    IndexOutOfRange,
    /// A level was written to a pin whose mode was never configured.
    UnconfiguredPinWrite,
}

/// The change made by a successful write: the pin's mode and index, and its
/// level before and after.
#[derive(PartialEq, Eq, Structural, Clone, Copy, Debug)]
pub struct Transition {
    pub mode: PinMode,
    pub pin_id: usize,
    pub from: PinValue,
    pub to: PinValue,
}

/// `<mode> pin <index> changed <old level> -> <new level>`.
pub open spec fn transition_text(t: Transition) -> Seq<char> {
    mode_text(t.mode) + " pin "@ + decimal_text(t.pin_id as nat) + " changed "@
        + value_text(t.from) + " -> "@ + value_text(t.to)
}

impl Transition {
    /// The human-readable description of this change.
    pub fn text(&self) -> (r: String)
        ensures
            r@ == transition_text(*self),
    {
        let mut r = String::from_str(mode_label(self.mode));
        r.append(" pin ");
        let index = decimal(self.pin_id);
        r.append(index.as_str());
        r.append(" changed ");
        r.append(value_label(self.from));
        r.append(" -> ");
        r.append(value_label(self.to));
        r
    }
}

/// `pins` after the pin at `i` is given `mode`; its level is kept.
pub open spec fn configured(pins: Seq<Pin>, i: int, mode: PinMode) -> Seq<Pin> {
    pins.update(i, Pin { mode: Some(mode), value: pins[i].value })
}

/// `pins` after the pin at `i` is set to `value`; its mode is kept.
pub open spec fn written(pins: Seq<Pin>, i: int, value: PinValue) -> Seq<Pin> {
    pins.update(i, Pin { mode: pins[i].mode, value })
}

/// A table of `PIN_COUNT` pins.
pub struct PinTable {
    pins: Vec<Pin>,
}

impl View for PinTable {
    type V = Seq<Pin>;

    closed spec fn view(&self) -> Seq<Pin> {
        self.pins@
    }
}

impl PinTable {
    /// A well-formed table holds exactly `PIN_COUNT` pins.
    pub open spec fn wf(&self) -> bool {
        self@.len() == PIN_COUNT
    }

    /// A table whose pins are all unconfigured and low.
    pub fn new() -> (r: PinTable)
        ensures
            r.wf(),
            r@ == Seq::new(PIN_COUNT as nat, |_i: int| initial_pin()),
    {
        let mut pins: Vec<Pin> = Vec::new();
        let mut i: usize = 0;
        while i < PIN_COUNT
            invariant
                i <= PIN_COUNT,
                pins@ == Seq::new(i as nat, |_j: int| initial_pin()),
            decreases PIN_COUNT - i,
        {
            pins.push(Pin::default());
            i = i + 1;
            assert(pins@ =~= Seq::new(i as nat, |_j: int| initial_pin()));
        }
        PinTable { pins }
    }

    /// Sets the mode of pin `pin_id`, whatever it was before.
    pub fn pin_mode(&mut self, pin_id: usize, mode: PinMode) -> (r: Result<(), PinError>)
        requires
            old(self).wf(),
        ensures
            final(self).wf(),
            pin_id < PIN_COUNT ==> r == Ok::<(), PinError>(()) && final(self)@ == configured(
                old(self)@,
                pin_id as int,
                mode,
            ),
            pin_id >= PIN_COUNT ==> r == Err::<(), PinError>(PinError::IndexOutOfRange)
                && final(self)@ == old(self)@,
    {
        if pin_id >= self.pins.len() {
            return Err(PinError::IndexOutOfRange);
        }
        let value = self.pins[pin_id].value;
        self.pins.set(pin_id, Pin { mode: Some(mode), value });
        Ok(())
    }

    /// Sets the level of pin `pin_id` and returns the change made. A pin
    /// out of range, or one whose mode is not configured, is left alone.
    pub fn digital_write(&mut self, pin_id: usize, value: PinValue) -> (r: Result<
        Transition,
        PinError,
    >)
        requires
            old(self).wf(),
        ensures
            final(self).wf(),
            pin_id >= PIN_COUNT ==> r == Err::<Transition, PinError>(PinError::IndexOutOfRange)
                && final(self)@ == old(self)@,
            pin_id < PIN_COUNT && old(self)@[pin_id as int].mode is None ==> r == Err::<
                Transition,
                PinError,
            >(PinError::UnconfiguredPinWrite) && final(self)@ == old(self)@,
            pin_id < PIN_COUNT && old(self)@[pin_id as int].mode is Some ==> r == Ok::<
                Transition,
                PinError,
            >(
                Transition {
                    mode: old(self)@[pin_id as int].mode->0,
                    pin_id,
                    from: old(self)@[pin_id as int].value,
                    to: value,
                },
            ) && final(self)@ == written(old(self)@, pin_id as int, value),
    {
        if pin_id >= self.pins.len() {
            return Err(PinError::IndexOutOfRange);
        }
        let pin = self.pins[pin_id];
        match pin.mode {
            None => Err(PinError::UnconfiguredPinWrite),
            Some(mode) => {
                self.pins.set(pin_id, Pin { mode: Some(mode), value });
                Ok(Transition { mode, pin_id, from: pin.value, to: value })
            },
        }
    }

    /// The state of pin `pin_id`, or `None` when it is out of range.
    pub fn pin(&self, pin_id: usize) -> (r: Option<Pin>)
        requires
            self.wf(),
        ensures
            pin_id < PIN_COUNT ==> r == Some(self@[pin_id as int]),
            pin_id >= PIN_COUNT ==> r is None,
    {
        if pin_id < self.pins.len() {
            Some(self.pins[pin_id])
        } else {
            None
        }
    }

    /// A copy of every pin, by index.
    pub fn snapshot(&self) -> (r: Vec<Pin>)
        ensures
            r@ == self@,
    {
        self.pins.clone()
    }
}

/// After pin `pin_id` is configured with `mode`, reading it gives `mode`;
/// its level and every other pin are as they were.
pub proof fn lemma_configure_then_read(pins: Seq<Pin>, pin_id: int, mode: PinMode)
    requires
        0 <= pin_id < pins.len(),
    ensures
        configured(pins, pin_id, mode)[pin_id].mode == Some(mode),
        configured(pins, pin_id, mode)[pin_id].value == pins[pin_id].value,
        forall|i: int|
            0 <= i < pins.len() && i != pin_id ==> #[trigger] configured(pins, pin_id, mode)[i]
                == pins[i],
{
}

/// After a level is written to a configured pin, the pin holds that level,
/// and the description of the change ends with that level's label.
pub proof fn lemma_write_then_read(pins: Seq<Pin>, pin_id: int, value: PinValue)
    requires
        0 <= pin_id < pins.len() <= usize::MAX,
        pins[pin_id].mode is Some,
    ensures
        written(pins, pin_id, value)[pin_id].value == value,
        written(pins, pin_id, value)[pin_id].mode == pins[pin_id].mode,
        ({
            let t = Transition {
                mode: pins[pin_id].mode->0,
                pin_id: pin_id as usize,
                from: pins[pin_id].value,
                to: value,
            };
            let s = transition_text(t);
            s.subrange(s.len() - value_text(value).len(), s.len() as int) == value_text(value)
        }),
{
    let t = Transition {
        mode: pins[pin_id].mode->0,
        pin_id: pin_id as usize,
        from: pins[pin_id].value,
        to: value,
    };
    let s = transition_text(t);
    let head = mode_text(t.mode) + " pin "@ + decimal_text(t.pin_id as nat) + " changed "@
        + value_text(t.from) + " -> "@;
    assert(s == head + value_text(value));
    assert(s.subrange(s.len() - value_text(value).len(), s.len() as int) =~= value_text(value));
}

/// Writes to two different pins are both kept, whichever comes first: no
/// write undoes another.
pub proof fn lemma_distinct_writes_kept(
    pins: Seq<Pin>,
    a: int,
    va: PinValue,
    b: int,
    vb: PinValue,
)
    requires
        0 <= a < pins.len(),
        0 <= b < pins.len(),
        a != b,
    ensures
        written(written(pins, a, va), b, vb) == written(written(pins, b, vb), a, va),
        written(written(pins, a, va), b, vb)[a].value == va,
        written(written(pins, a, va), b, vb)[b].value == vb,
{
    assert(written(written(pins, a, va), b, vb) =~= written(written(pins, b, vb), a, va));
}

} // verus!
