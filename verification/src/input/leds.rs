//! Physical keyboard lock LEDs.
//!
//! Keyboards expose LEDs for the three lock indicators only. Shift is a
//! momentary modifier without one, so it is part of [`KeyboardStatus`], which
//! bars show, and not of [`KeyboardLedState`], which goes to the hardware.
use vstd::prelude::*;
use vstd::std_specs::cmp::PartialEqSpec;
use vstd::string::*;

verus! {

/// Effective lock-key LED state.
#[derive(Debug, Clone, Copy, PartialEq, Eq, Structural)]
pub struct KeyboardLedState {
    pub caps_lock: bool,
    pub num_lock: bool,
    pub scroll_lock: bool,
}

impl Default for KeyboardLedState {
    fn default() -> (r: Self)
        ensures
            r == (KeyboardLedState { caps_lock: false, num_lock: false, scroll_lock: false }),
    {
        KeyboardLedState { caps_lock: false, num_lock: false, scroll_lock: false }
    }
}

impl KeyboardLedState {
    /// The state of the three indicators. A keymap that lacks one reports
    /// nothing for it; that lock can never engage, so its LED is off.
    pub fn from_indicators(caps: Option<bool>, num: Option<bool>, scroll: Option<bool>) -> (r: Self)
        ensures
            r.caps_lock == (caps == Some(true)),
            r.num_lock == (num == Some(true)),
            r.scroll_lock == (scroll == Some(true)),
    {
        KeyboardLedState {
            caps_lock: caps.unwrap_or(false),
            num_lock: num.unwrap_or(false),
            scroll_lock: scroll.unwrap_or(false),
        }
    }
}

/// Backend hook that pushes lock-LED state to physical keyboards.
pub trait KeyboardLedController: Sized {
    /// The states handed to this controller so far, oldest first. A verified
    /// implementation defines it.
    closed spec fn written(&self) -> Seq<KeyboardLedState> {
        arbitrary()
    }

    /// Whether `after` is `before` with a state handed to it.
    open spec fn handed(before: Self, after: Self, state: KeyboardLedState) -> bool {
        after.written() == before.written().push(state)
    }

    fn set_keyboard_leds(&mut self, state: KeyboardLedState)
        ensures
            final(self).written() == old(self).written().push(state),
            Self::handed(*old(self), *final(self), state),
    ;
}

/// Whether two devices are one, as `==` has it.
pub open spec fn same_device<D: PartialEq>(a: D, b: D) -> bool {
    a.eq_spec(&b)
}

/// One keyboard whose LEDs can be written. Devices are told apart by `==`, which
/// a write leaves alone.
pub trait LedDevice: Sized + PartialEq {
    /// The states handed to this device so far, oldest first. A verified
    /// implementation defines it.
    closed spec fn written(&self) -> Seq<KeyboardLedState> {
        arbitrary()
    }

    fn set_leds(&mut self, state: KeyboardLedState)
        ensures
            final(self).written() == old(self).written().push(state),
            forall|other: Self| #[trigger]
                same_device(*final(self), other) == same_device(*old(self), other),
    ;
}

/// The current keyboard devices of a backend. Every LED write goes to each of
/// them.
pub struct LedDeviceRegistry<D: LedDevice> {
    devices: Vec<D>,
    history: Ghost<Seq<KeyboardLedState>>,
    journal: Ghost<Seq<(int, KeyboardLedState)>>,
}

/// Whether `after` is `before` with one more device, which was handed `current`.
pub open spec fn device_added<D: LedDevice>(
    before: LedDeviceRegistry<D>,
    after: LedDeviceRegistry<D>,
    device: D,
    current: KeyboardLedState,
) -> bool {
    &&& after.written() == before.written()
    &&& after.journal() == before.journal().push((before.devices().len() as int, current))
    &&& after.devices().len() == before.devices().len() + 1
    &&& after.devices().drop_last() == before.devices()
    &&& after.devices().last().written() == device.written().push(current)
    &&& forall|other: D| #[trigger]
        same_device(after.devices().last(), other) == same_device(device, other)
}

/// Whether `after` is `before` without a device.
pub open spec fn device_removed<D: LedDevice>(
    before: LedDeviceRegistry<D>,
    after: LedDeviceRegistry<D>,
    device: D,
) -> bool {
    &&& after.written() == before.written()
    &&& after.journal() == before.journal()
    &&& after.devices() == others(before.devices(), device)
}

/// Whether `after` is `before` with a state written to every device, once, in the
/// order in which they were registered, and to nothing else.
pub open spec fn every_device_written<D: LedDevice>(
    before: LedDeviceRegistry<D>,
    after: LedDeviceRegistry<D>,
    state: KeyboardLedState,
) -> bool {
    &&& after.written() == before.written().push(state)
    &&& after.journal() == before.journal() + Seq::new(
        before.devices().len(),
        |i: int| (i, state),
    )
    &&& after.devices().len() == before.devices().len()
    &&& forall|i: int|
        0 <= i < before.devices().len() ==> (#[trigger] after.devices()[i]).written()
            == before.devices()[i].written().push(state)
    &&& forall|i: int, other: D|
        0 <= i < before.devices().len() ==> #[trigger] same_device(after.devices()[i], other)
            == same_device(before.devices()[i], other)
}

/// The devices of `devices` that are not `device`, in order.
pub open spec fn others<D: PartialEq>(devices: Seq<D>, device: D) -> Seq<D> {
    devices.filter(|known: D| !same_device(known, device))
}

impl<D: LedDevice> LedDeviceRegistry<D> {
    pub closed spec fn devices(&self) -> Seq<D> {
        self.devices@
    }

    /// The writes to devices so far, oldest first: the number of the device, as
    /// it was registered then, and the state.
    pub closed spec fn journal(&self) -> Seq<(int, KeyboardLedState)> {
        self.journal@
    }

    pub fn new() -> (r: Self)
        ensures
            r.devices() == Seq::<D>::empty(),
            r.written() == Seq::<KeyboardLedState>::empty(),
            r.journal() == Seq::<(int, KeyboardLedState)>::empty(),
    {
        LedDeviceRegistry {
            devices: Vec::new(),
            history: Ghost(Seq::empty()),
            journal: Ghost(Seq::empty()),
        }
    }

    /// Write to one device, and enter that in the journal.
    fn write_to(&mut self, i: usize, state: KeyboardLedState)
        requires
            i < old(self).devices().len(),
        ensures
            final(self).written() == old(self).written(),
            final(self).journal() == old(self).journal().push((i as int, state)),
            final(self).devices().len() == old(self).devices().len(),
            final(self).devices()[i as int].written() == old(self).devices()[i as int].written().push(
                state,
            ),
            forall|other: D| #[trigger]
                same_device(final(self).devices()[i as int], other) == same_device(
                    old(self).devices()[i as int],
                    other,
                ),
            forall|k: int|
                0 <= k < old(self).devices().len() && k != i ==> #[trigger] final(self).devices()[k]
                    == old(self).devices()[k],
    {
        self.devices[i].set_leds(state);
        self.journal = Ghost(self.journal@.push((i as int, state)));
    }

    pub fn len(&self) -> (r: usize)
        ensures
            r == self.devices().len(),
    {
        self.devices.len()
    }

    /// Register a keyboard and push `current` to it at once: a device that
    /// just appeared carries whatever LED state was left on it.
    pub fn add_device(&mut self, device: D, current: KeyboardLedState)
        ensures
            device_added(*old(self), *final(self), device, current),
    {
        let i: usize = self.devices.len();
        self.devices.push(device);
        self.write_to(i, current);
        proof {
            assert(self.devices().drop_last() =~= old(self).devices());
        }
    }

    /// Forget a detached keyboard so no further writes go to it.
    pub fn remove_device(&mut self, device: &D)
        requires
            D::obeys_eq_spec(),
        ensures
            device_removed(*old(self), *final(self), *device),
    {
        let ghost before = self.devices@;
        let ghost keep = |known: D| !same_device(known, *device);
        let mut kept: Vec<D> = Vec::new();
        let mut i: usize = self.devices.len();
        proof {
            reveal(Seq::filter);
            assert(before.subrange(i as int, before.len() as int) =~= Seq::<D>::empty());
        }
        while i > 0
            invariant
                D::obeys_eq_spec(),
                i == self.devices@.len(),
                i <= before.len(),
                self.devices@ == before.subrange(0, i as int),
                self.history == old(self).history,
                self.journal == old(self).journal,
                keep == (|known: D| !same_device(known, *device)),
                kept@.reverse() == before.subrange(i as int, before.len() as int).filter(keep),
            decreases i,
        {
            match self.devices.pop() {
                Some(known) => {
                    let ghost rest = before.subrange(i as int, before.len() as int);
                    let ghost tail = before.subrange(i - 1, before.len() as int);
                    proof {
                        assert(tail =~= seq![known] + rest);
                        lemma_filter_cons(known, rest, keep);
                        assert(self.devices@ =~= before.subrange(0, i - 1));
                    }
                    let ghost kept0 = kept@;
                    if known != *device {
                        kept.push(known);
                        proof {
                            assert(kept@.reverse() =~= seq![known] + kept0.reverse());
                        }
                    }
                },
                None => {},
            }
            i = i - 1;
        }
        proof {
            assert(before.subrange(0, before.len() as int) =~= before);
        }
        let mut restored: Vec<D> = Vec::new();
        let ghost kept_all = kept@;
        let mut n: usize = kept.len();
        while n > 0
            invariant
                n == kept@.len(),
                n <= kept_all.len(),
                kept@ == kept_all.subrange(0, n as int),
                restored@ == kept_all.reverse().subrange(0, kept_all.len() - n),
            decreases n,
        {
            match kept.pop() {
                Some(known) => {
                    restored.push(known);
                    proof {
                        assert(kept@ =~= kept_all.subrange(0, n - 1));
                        assert(kept_all.reverse()[kept_all.len() - n] == known);
                        assert(restored@ =~= kept_all.reverse().subrange(0, kept_all.len() - n + 1));
                    }
                },
                None => {},
            }
            n = n - 1;
        }
        self.devices = restored;
        proof {
            assert(self.devices@ =~= kept_all.reverse());
            assert(others(before, *device) == before.filter(keep)) by {
                assert(keep =~= (|known: D| !same_device(known, *device)));
            }
        }
    }
}

proof fn lemma_filter_cons<D>(head: D, rest: Seq<D>, keep: spec_fn(D) -> bool)
    ensures
        (seq![head] + rest).filter(keep) == if keep(head) {
            seq![head] + rest.filter(keep)
        } else {
            rest.filter(keep)
        },
{
    reveal(Seq::filter);
    Seq::filter_distributes_over_add(seq![head], rest, keep);
    reveal_with_fuel(Seq::filter, 2);
    assert(seq![head].drop_last() =~= Seq::<D>::empty());
    assert(Seq::<D>::empty().filter(keep) =~= Seq::<D>::empty());
    assert(seq![head].last() == head);
    assert(seq![head].filter(keep) =~= if keep(head) {
        seq![head]
    } else {
        Seq::empty()
    });
    assert(Seq::<D>::empty() + rest.filter(keep) =~= rest.filter(keep));
}

impl<D: LedDevice> KeyboardLedController for LedDeviceRegistry<D> {
    closed spec fn written(&self) -> Seq<KeyboardLedState> {
        self.history@
    }

    open spec fn handed(before: Self, after: Self, state: KeyboardLedState) -> bool {
        every_device_written(before, after, state)
    }

    /// Every registered device gets the state.
    fn set_keyboard_leds(&mut self, state: KeyboardLedState) {
        let ghost before = self.devices();
        let ghost all = Seq::new(before.len(), |i: int| (i, state));
        let mut i: usize = 0;
        proof {
            assert(self.journal() + all.subrange(0, 0) =~= self.journal());
        }
        while i < self.devices.len()
            invariant
                i <= self.devices().len(),
                self.devices().len() == before.len(),
                before == old(self).devices(),
                all == Seq::new(before.len(), |i: int| (i, state)),
                self.written() == old(self).written(),
                self.journal() == old(self).journal() + all.subrange(0, i as int),
                forall|k: int|
                    0 <= k < i ==> (#[trigger] self.devices()[k]).written()
                        == before[k].written().push(state),
                forall|k: int, other: D|
                    0 <= k < i ==> #[trigger] same_device(self.devices()[k], other) == same_device(
                        before[k],
                        other,
                    ),
                forall|k: int| i <= k < before.len() ==> #[trigger] self.devices()[k] == before[k],
            decreases self.devices().len() - i,
        {
            self.write_to(i, state);
            proof {
                assert(old(self).journal() + all.subrange(0, i + 1) =~= (old(self).journal()
                    + all.subrange(0, i as int)).push(all[i as int]));
            }
            i = i + 1;
        }
        proof {
            assert(all.subrange(0, i as int) =~= all);
        }
        self.history = Ghost(self.history@.push(state));
    }
}

impl<D: LedDevice> Default for LedDeviceRegistry<D> {
    fn default() -> (r: Self)
        ensures
            r.devices() == Seq::<D>::empty(),
            r.written() == Seq::<KeyboardLedState>::empty(),
            r.journal() == Seq::<(int, KeyboardLedState)>::empty(),
    {
        LedDeviceRegistry::new()
    }
}

/// A keyboard that was removed is no longer among the devices, which are all
/// that a write goes to; and removing one that was just added leaves those that
/// were there before.
pub proof fn a_removed_keyboard_gets_no_more_writes<D: LedDevice>(
    devices: Seq<D>,
    added: D,
    device: D,
)
    ensures
        forall|i: int|
            0 <= i < others(devices, device).len() ==> !same_device(
                #[trigger] others(devices, device)[i],
                device,
            ),
        same_device(added, device) ==> others(devices.push(added), device) == others(
            devices,
            device,
        ),
        !same_device(added, device) ==> others(devices.push(added), device) == others(
            devices,
            device,
        ).push(added),
{
    let keep = |known: D| !same_device(known, device);
    reveal(Seq::filter);
    assert(devices.push(added).drop_last() =~= devices);
    devices.filter_lemma(keep);
}

/// Compositor-side LED bookkeeping: the backend controller, if the backend can
/// drive LEDs at all, and the last state actually written, so unchanged states
/// are never pushed again.
pub struct KeyboardLeds<C: KeyboardLedController> {
    controller: Option<C>,
    last_applied: Option<KeyboardLedState>,
}

impl<C: KeyboardLedController> KeyboardLeds<C> {
    pub closed spec fn controller(&self) -> Option<C> {
        self.controller
    }

    pub closed spec fn last_applied(&self) -> Option<KeyboardLedState> {
        self.last_applied
    }

    pub fn new() -> (r: Self)
        ensures
            r.controller() is None,
            r.last_applied() is None,
    {
        KeyboardLeds { controller: None, last_applied: None }
    }

    /// Install the backend hook.
    pub fn install_controller(&mut self, controller: C)
        ensures
            final(self).controller() == Some(controller),
            final(self).last_applied() == old(self).last_applied(),
    {
        self.controller = Some(controller);
    }

    /// Push `state` to the keyboards, unless it is the last applied state.
    /// Without a controller nothing is written and nothing is recorded: the
    /// first apply after one is installed must not be skipped.
    pub fn apply(&mut self, state: KeyboardLedState)
        ensures
            old(self).controller() is None ==> {
                &&& final(self).controller() is None
                &&& final(self).last_applied() == old(self).last_applied()
            },
            old(self).controller() is Some ==> {
                &&& final(self).controller() is Some
                &&& final(self).last_applied() == Some(state)
                &&& old(self).last_applied() == Some(state) ==> final(self).controller() == old(
                    self,
                ).controller()
                &&& final(self).controller()->0.written() == if old(self).last_applied() == Some(
                    state,
                ) {
                    old(self).controller()->0.written()
                } else {
                    old(self).controller()->0.written().push(state)
                }
                &&& old(self).last_applied() != Some(state) ==> C::handed(
                    old(self).controller()->0,
                    final(self).controller()->0,
                    state,
                )
            },
    {
        match &mut self.controller {
            None => {},
            Some(controller) => {
                let unchanged = match self.last_applied {
                    Some(last) => last == state,
                    None => false,
                };
                if !unchanged {
                    controller.set_keyboard_leds(state);
                    self.last_applied = Some(state);
                }
            },
        }
    }

    /// Forget the last applied state so the next apply writes whatever it is.
    pub fn invalidate(&mut self)
        ensures
            final(self).last_applied() is None,
            final(self).controller() == old(self).controller(),
    {
        self.last_applied = None;
    }
}

/// A keyboard that is added gets the current state, and each later state along with
/// those that were there before it.
pub proof fn an_added_keyboard_gets_later_states<D: LedDevice>(
    before: LedDeviceRegistry<D>,
    with_device: LedDeviceRegistry<D>,
    after: LedDeviceRegistry<D>,
    device: D,
    current: KeyboardLedState,
    state: KeyboardLedState,
)
    requires
        device_added(before, with_device, device, current),
        every_device_written(with_device, after, state),
    ensures
        after.devices().len() == before.devices().len() + 1,
        after.devices().last().written() == device.written().push(current).push(state),
        forall|i: int|
            0 <= i < before.devices().len() ==> (#[trigger] after.devices()[i]).written()
                == before.devices()[i].written().push(state),
{
    let n = before.devices().len() as int;
    assert(after.devices()[n].written() == with_device.devices()[n].written().push(state));
    assert forall|i: int| 0 <= i < n implies (#[trigger] after.devices()[i]).written()
        == before.devices()[i].written().push(state) by {
        assert(with_device.devices().drop_last()[i] == with_device.devices()[i]);
    }
}

impl<D: LedDevice> KeyboardLeds<LedDeviceRegistry<D>> {
    /// A keyboard appeared: it is handed `current` at once, and every state from
    /// then on. Without a controller nothing is driven.
    pub fn add_device(&mut self, device: D, current: KeyboardLedState)
        ensures
            final(self).last_applied() == old(self).last_applied(),
            final(self).controller() is Some <==> old(self).controller() is Some,
            old(self).controller() is Some ==> device_added(
                old(self).controller()->0,
                final(self).controller()->0,
                device,
                current,
            ),
    {
        match &mut self.controller {
            Some(registry) => registry.add_device(device, current),
            None => {},
        }
    }

    /// A keyboard is gone: nothing is written to it any more.
    pub fn remove_device(&mut self, device: &D)
        requires
            D::obeys_eq_spec(),
        ensures
            final(self).last_applied() == old(self).last_applied(),
            final(self).controller() is Some <==> old(self).controller() is Some,
            old(self).controller() is Some ==> device_removed(
                old(self).controller()->0,
                final(self).controller()->0,
                *device,
            ),
    {
        match &mut self.controller {
            Some(registry) => registry.remove_device(device),
            None => {},
        }
    }
}

impl<C: KeyboardLedController> Default for KeyboardLeds<C> {
    fn default() -> (r: Self)
        ensures
            r.controller() is None,
            r.last_applied() is None,
    {
        KeyboardLeds::new()
    }
}

/// Lock and Shift snapshot for the event socket.
#[derive(Debug, Clone, Copy, PartialEq, Eq, Structural)]
pub struct KeyboardStatus {
    pub caps_lock: bool,
    pub num_lock: bool,
    pub scroll_lock: bool,
    pub shift: bool,
}

pub open spec fn bit(on: bool) -> Seq<char> {
    if on { "1"@ } else { "0"@ }
}

fn bit_str(on: bool) -> (r: &'static str)
    ensures
        r@ == bit(on),
{
    if on {
        "1"
    } else {
        "0"
    }
}

impl KeyboardStatus {
    /// `keyboard>>caps=0|1 num=0|1 scroll=0|1 shift=0|1`.
    pub open spec fn payload(self) -> Seq<char> {
        "keyboard>>caps="@ + bit(self.caps_lock) + " num="@ + bit(self.num_lock) + " scroll="@ + bit(
            self.scroll_lock,
        ) + " shift="@ + bit(self.shift)
    }

    pub fn event_payload(&self) -> (r: String)
        ensures
            r@ == self.payload(),
    {
        let mut s = "keyboard>>caps=".to_owned();
        s.append(bit_str(self.caps_lock));
        s.append(" num=");
        s.append(bit_str(self.num_lock));
        s.append(" scroll=");
        s.append(bit_str(self.scroll_lock));
        s.append(" shift=");
        s.append(bit_str(self.shift));
        s
    }

    /// The snapshot of a keyboard, from its modifiers and its Scroll Lock
    /// indicator.
    pub fn snapshot(caps_lock: bool, num_lock: bool, scroll: Option<bool>, shift: bool) -> (r: Self)
        ensures
            r == (KeyboardStatus {
                caps_lock,
                num_lock,
                scroll_lock: scroll == Some(true),
                shift,
            }),
    {
        KeyboardStatus { caps_lock, num_lock, scroll_lock: scroll.unwrap_or(false), shift }
    }
}

/// The last snapshot that subscribers were told about.
#[derive(Debug, Clone, Copy, PartialEq, Eq, Structural)]
pub struct PublishedStatus {
    pub last: Option<KeyboardStatus>,
}

impl PublishedStatus {
    /// The event to publish for the keyboard's current status, if it changed
    /// since the last one. Without a keyboard there is nothing to say.
    pub fn publish(&mut self, status: Option<KeyboardStatus>) -> (r: Option<String>)
        ensures
            match status {
                Some(current) => {
                    &&& final(self).last == Some(current)
                    &&& old(self).last == Some(current) ==> r is None
                    &&& old(self).last != Some(current) ==> r is Some && r->0@ == current.payload()
                },
                None => r is None && *final(self) == *old(self),
            },
    {
        match status {
            None => None,
            Some(current) => {
                let unchanged = match self.last {
                    Some(last) => last == current,
                    None => false,
                };
                if unchanged {
                    return None;
                }
                self.last = Some(current);
                Some(current.event_payload())
            },
        }
    }
}

/// The line for the bar says of each lock and of shift, by one digit each at its place,
/// whether it is on.
pub proof fn the_line_says_which_locks_are_on(state: KeyboardStatus)
    ensures
        state.payload().len() == 39,
        state.payload().subrange(0, 15) == "keyboard>>caps="@,
        state.payload()[15] == if state.caps_lock { '1' } else { '0' },
        state.payload().subrange(16, 21) == " num="@,
        state.payload()[21] == if state.num_lock { '1' } else { '0' },
        state.payload().subrange(22, 30) == " scroll="@,
        state.payload()[30] == if state.scroll_lock { '1' } else { '0' },
        state.payload().subrange(31, 38) == " shift="@,
        state.payload()[38] == if state.shift { '1' } else { '0' },
{
    reveal_strlit("keyboard>>caps=");
    reveal_strlit(" num=");
    reveal_strlit(" scroll=");
    reveal_strlit(" shift=");
    reveal_strlit("0");
    reveal_strlit("1");
    let line = state.payload();
    assert(line.subrange(0, 15) =~= "keyboard>>caps="@);
    assert(line.subrange(16, 21) =~= " num="@);
    assert(line.subrange(22, 30) =~= " scroll="@);
    assert(line.subrange(31, 38) =~= " shift="@);
}

} // verus!
