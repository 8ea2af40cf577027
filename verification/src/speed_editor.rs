use vstd::prelude::*;

pub mod auth;
pub mod bytes;
mod clock;
pub mod handler;
pub mod key;
pub mod key_led;
pub mod laws;
pub mod model;
pub mod report;

use auth::{auth_advance, auth_request, spec_auth_advance, spec_auth_request, AuthStage};
use bytes::spec_i32_from_le;
use clock::now_millis;
use handler::{
    ConnectedHandler, DisconnectedHandler, Handler, JogHandler, KeyDownHandler, KeyHandler,
    KeyUpHandler, KeysHandler, UnknownHandler,
};
use key::Key;
use key_led::{lemma_all_leds, KeyLed};
use model::{
    spec_key_notices, spec_key_transitions, spec_lit_with, spec_lit_with_all, spec_lit_without,
    KeyNotice, Session, Subscribers,
};
use report::{
    decode_keys, holds_led, jog_value, keys_gained, led_mask, led_report,
    lemma_decoded_keys_are_keys, lemma_filter_keeps_all, lemma_filter_no_duplicates,
    lemma_filter_twice, same_keys, spec_decode_keys, spec_jog_value,
    spec_key_slots, spec_keys_gained, spec_led_mask, spec_led_report, JOG_REPORT_LEN, REPORT_JOG,
    REPORT_KEYS,
};
use vstd::slice::slice_subrange;

verus! {

/// The USB vendor id of the device.
pub const VID: u16 = 7899;

/// The USB product id of the device.
pub const PID: u16 = 55822;

/// How long a read of an input report may wait, in milliseconds.
pub const READ_TIMEOUT: i32 = 1000;

/// How long to wait after a failed attempt to open the device, in
/// milliseconds.
pub const RECONNECT_INTERVAL: u64 = 100;

/// How old an authentication may get, in milliseconds: one that is older has
/// lapsed.
pub const AUTH_INTERVAL: i64 = 30000;

/// What can go wrong in a session.
///
/// The session itself fails with the three errors of the handshake, with
/// [`SpeedEditorError::StdIoError`] and with
/// [`SpeedEditorError::KeyDecodeError`]. The others are for subscribers to
/// return; whatever a subscriber returns ends the delivery and is the result
/// of the operation that told it.
#[derive(Clone, Copy, PartialEq, Eq, Debug, Structural)]
pub enum SpeedEditorError {
    /// The transport failed. A transfer that fails for the session is a lost
    /// device and no error: see [`SpeedEditor::disconnect`].
    HidApiError,
    /// A report ended before the data that it announces.
    StdIoError,
    /// The device did not answer the request for a challenge with a challenge.
    AuthGetKbdChallengeError,
    /// The device did not acknowledge that the host is ready to respond.
    AuthGetKbdResponseError,
    /// The device did not accept the response to its challenge.
    AuthGetKbdStatusError,
    /// A subscriber failed.
    CallbackExecutionError,
    /// A keys report holds a code, given here, that names no key.
    KeyDecodeError(u8),
}

/// What a session operation returns.
pub type SpeedEditorResult = Result<(), SpeedEditorError>;

/// What the host is to do next for the session. The session itself performs
/// no transfer: it says which one is due, and is told of the outcome.
#[derive(Clone, Copy, PartialEq, Eq, Debug)]
pub enum Action {
    /// Open the device with these USB ids, then call
    /// [`SpeedEditor::connect`] with the outcome.
    Open { vid: u16, pid: u16 },
    /// Send this control report, read a control report of the same size and
    /// first byte back, then call [`SpeedEditor::auth`] with the outcome.
    Exchange([u8; 10]),
    /// Read one input report, waiting for it at most so many milliseconds,
    /// then call [`SpeedEditor::handle_read`] with the outcome.
    Read { timeout: i32 },
}

/// A session with the device: whether it is connected and authenticated, the
/// keys that are held down, the lights that are lit, and the subscribers to
/// its events.
///
/// The type parameters are the types of the subscribers: `C` for the news of
/// a connection made or lost, `S` for the keys held down, `T` for a key gone
/// down or up, `K` for a key gone down and for a key gone up, `J` for the jog
/// wheel, `U` for reports that the session cannot read.
pub struct SpeedEditor<C, S, T, K, J, U> {
    /// Whether a device is open.
    pub connected: bool,
    /// When the device last accepted a handshake, in milliseconds since the
    /// start of 1970; `None` where it never did since it was opened.
    pub last_authenticated_at: Option<i64>,
    /// How far the handshake has come.
    pub auth_stage: AuthStage,
    /// The keys that are held down, in the order of the last keys report.
    pub current_keys: Vec<Key>,
    /// The lights that are lit, each once, in the order in which they were
    /// switched on.
    pub current_key_leds: Vec<KeyLed>,
    pub connected_handler: ConnectedHandler<C>,
    pub disconnected_handler: DisconnectedHandler<C>,
    pub keys_handler: KeysHandler<S>,
    pub key_handler: KeyHandler<T>,
    pub key_down_handler: KeyDownHandler<K>,
    pub key_up_handler: KeyUpHandler<K>,
    pub jog_handler: JogHandler<J>,
    pub unknown_handler: UnknownHandler<U>,
}

/// The view of a session is its state. The subscribers are no part of it:
/// the contracts speak of them through [`SpeedEditor::subscribers`].
impl<C, S, T, K, J, U> View for SpeedEditor<C, S, T, K, J, U> {
    type V = Session;

    open spec fn view(&self) -> Session {
        Session {
            connected: self.connected,
            last_authenticated_at: self.last_authenticated_at,
            auth_stage: self.auth_stage,
            current_keys: self.current_keys@,
            current_key_leds: self.current_key_leds@,
        }
    }
}

impl<C, S, T, K, J, U> SpeedEditor<C, S, T, K, J, U> where
    C: FnMut() -> SpeedEditorResult,
    S: FnMut(Vec<Key>) -> SpeedEditorResult,
    T: FnMut(Key, bool) -> SpeedEditorResult,
    K: FnMut(Key) -> SpeedEditorResult,
    J: FnMut(u8, i32) -> SpeedEditorResult,
    U: FnMut(&[u8]) -> SpeedEditorResult,
 {
    /// The subscribers of the session.
    pub open spec fn subscribers(&self) -> Subscribers<C, S, T, K, J, U> {
        Subscribers {
            connected: self.connected_handler.callbacks@,
            disconnected: self.disconnected_handler.callbacks@,
            keys: self.keys_handler.callbacks@,
            key: self.key_handler.callbacks@,
            key_down: self.key_down_handler.callbacks@,
            key_up: self.key_up_handler.callbacks@,
            jog: self.jog_handler.callbacks@,
            unknown: self.unknown_handler.callbacks@,
        }
    }

    /// The session is well formed: every subscriber may be called, and the
    /// state is well formed, as [`Session::wf`] says.
    pub open spec fn wf(&self) -> bool {
        &&& self.subscribers().callable()
        &&& self@.wf()
    }

    /// A session that has no device, was never authenticated, holds no key
    /// down, has no light lit and has no subscriber.
    pub fn new() -> (editor: Self)
        ensures
            editor@ =~= (Session {
                connected: false,
                last_authenticated_at: None,
                auth_stage: AuthStage::Challenge,
                current_keys: Seq::empty(),
                current_key_leds: Seq::empty(),
            }),
            editor.subscribers() =~= (Subscribers::<C, S, T, K, J, U> {
                connected: Seq::empty(),
                disconnected: Seq::empty(),
                keys: Seq::empty(),
                key: Seq::empty(),
                key_down: Seq::empty(),
                key_up: Seq::empty(),
                jog: Seq::empty(),
                unknown: Seq::empty(),
            }),
            editor.wf(),
    {
        SpeedEditor {
            connected: false,
            last_authenticated_at: None,
            auth_stage: AuthStage::Challenge,
            current_keys: Vec::new(),
            current_key_leds: Vec::new(),
            connected_handler: ConnectedHandler::new(),
            disconnected_handler: DisconnectedHandler::new(),
            keys_handler: KeysHandler::new(),
            key_handler: KeyHandler::new(),
            key_down_handler: KeyDownHandler::new(),
            key_up_handler: KeyUpHandler::new(),
            jog_handler: JogHandler::new(),
            unknown_handler: UnknownHandler::new(),
        }
    }

    /// Subscribes to the news that a device was connected. The subscriber is
    /// called after those that subscribed before it.
    pub fn on_connected(&mut self, callback: C)
        requires
            old(self).wf(),
            call_requires(callback, ()),
        ensures
            final(self)@ == old(self)@,
            final(self).subscribers() == (Subscribers {
                connected: old(self).subscribers().connected.push(callback),
                ..old(self).subscribers()
            }),
            final(self).wf(),
    {
        self.connected_handler.push(callback);
    }

    /// Subscribes to the news that the device was lost. The subscriber is
    /// called after those that subscribed before it.
    pub fn on_disconnected(&mut self, callback: C)
        requires
            old(self).wf(),
            call_requires(callback, ()),
        ensures
            final(self)@ == old(self)@,
            final(self).subscribers() == (Subscribers {
                disconnected: old(self).subscribers().disconnected.push(callback),
                ..old(self).subscribers()
            }),
            final(self).wf(),
    {
        self.disconnected_handler.push(callback);
    }

    /// Subscribes to the news that the keys that are held down have changed; it
    /// is handed all of them. The subscriber is called after those that
    /// subscribed before it.
    pub fn on_keys(&mut self, callback: S)
        requires
            old(self).wf(),
            forall|keys: Vec<Key>| #[trigger] call_requires(callback, (keys, )),
        ensures
            final(self)@ == old(self)@,
            final(self).subscribers() == (Subscribers {
                keys: old(self).subscribers().keys.push(callback),
                ..old(self).subscribers()
            }),
            final(self).wf(),
    {
        self.keys_handler.push(callback);
    }

    /// Subscribes to the news that a key went down or up. The subscriber is
    /// called after those that subscribed before it.
    pub fn on_key(&mut self, callback: T)
        requires
            old(self).wf(),
            forall|key: Key, down: bool| #[trigger] call_requires(callback, (key, down, )),
        ensures
            final(self)@ == old(self)@,
            final(self).subscribers() == (Subscribers {
                key: old(self).subscribers().key.push(callback),
                ..old(self).subscribers()
            }),
            final(self).wf(),
    {
        self.key_handler.push(callback);
    }

    /// Subscribes to the news that a key went down. The subscriber is called
    /// after those that subscribed before it.
    pub fn on_key_down(&mut self, callback: K)
        requires
            old(self).wf(),
            forall|key: Key| #[trigger] call_requires(callback, (key, )),
        ensures
            final(self)@ == old(self)@,
            final(self).subscribers() == (Subscribers {
                key_down: old(self).subscribers().key_down.push(callback),
                ..old(self).subscribers()
            }),
            final(self).wf(),
    {
        self.key_down_handler.push(callback);
    }

    /// Subscribes to the news that a key went up. The subscriber is called
    /// after those that subscribed before it.
    pub fn on_key_up(&mut self, callback: K)
        requires
            old(self).wf(),
            forall|key: Key| #[trigger] call_requires(callback, (key, )),
        ensures
            final(self)@ == old(self)@,
            final(self).subscribers() == (Subscribers {
                key_up: old(self).subscribers().key_up.push(callback),
                ..old(self).subscribers()
            }),
            final(self).wf(),
    {
        self.key_up_handler.push(callback);
    }

    /// Subscribes to the news that the jog wheel was turned. The subscriber is
    /// called after those that subscribed before it.
    pub fn on_jog(&mut self, callback: J)
        requires
            old(self).wf(),
            forall|mode: u8, value: i32| #[trigger] call_requires(callback, (mode, value, )),
        ensures
            final(self)@ == old(self)@,
            final(self).subscribers() == (Subscribers {
                jog: old(self).subscribers().jog.push(callback),
                ..old(self).subscribers()
            }),
            final(self).wf(),
    {
        self.jog_handler.push(callback);
    }

    /// Subscribes to the news that a report came that the session cannot read.
    /// The subscriber is called after those that subscribed before it.
    pub fn on_unknown(&mut self, callback: U)
        requires
            old(self).wf(),
            forall|data: &[u8]| #[trigger] call_requires(callback, (data, )),
        ensures
            final(self)@ == old(self)@,
            final(self).subscribers() == (Subscribers {
                unknown: old(self).subscribers().unknown.push(callback),
                ..old(self).subscribers()
            }),
            final(self).wf(),
    {
        self.unknown_handler.push(callback);
    }

    /// Adds a light to those that are lit, unless it is lit already. Nothing is
    /// sent.
    pub fn add_key_led(&mut self, led: KeyLed)
        ensures
            final(self)@ == (Session {
                current_key_leds: spec_lit_with(old(self)@.current_key_leds, led),
                ..old(self)@
            }),
            final(self).subscribers() == old(self).subscribers(),
            old(self).wf() ==> final(self).wf(),
    {
        if !holds_led(&self.current_key_leds, led) {
            self.current_key_leds.push(led);
        }
    }

    /// Takes a light from those that are lit. Nothing is sent.
    pub fn remove_key_led(&mut self, led: KeyLed)
        ensures
            final(self)@ == (Session {
                current_key_leds: old(self)@.current_key_leds.filter(|l: KeyLed| l != led),
                ..old(self)@
            }),
            final(self).subscribers() == old(self).subscribers(),
            old(self).wf() ==> final(self).wf(),
    {
        let ghost other = |l: KeyLed| l != led;
        let mut kept: Vec<KeyLed> = Vec::new();
        let mut i: usize = 0;
        while i < self.current_key_leds.len()
            invariant
                *self == *old(self),
                other == |l: KeyLed| l != led,
                i <= self.current_key_leds@.len(),
                kept@ == self.current_key_leds@.take(i as int).filter(other),
            decreases self.current_key_leds@.len() - i,
        {
            let l: KeyLed = self.current_key_leds[i];
            proof {
                let lit = self.current_key_leds@;
                assert(lit.take(i + 1) == lit.take(i as int).push(l));
                lit.take(i as int).lemma_filter_push(l, other);
            }
            if l != led {
                kept.push(l);
            }
            i = i + 1;
        }
        proof {
            assert(self.current_key_leds@.take(i as int) == self.current_key_leds@);
            if self.current_key_leds@.no_duplicates() {
                lemma_filter_no_duplicates(self.current_key_leds@, other);
            }
        }
        self.current_key_leds = kept;
    }

    /// The output report that shows the lights that are lit, for the host to
    /// write to the device; nothing where no device is connected. The report
    /// always tells of every light, never of a change alone. The host tells
    /// how the write went with [`SpeedEditor::light_written`].
    pub fn light_key_leds(&self) -> (report: Option<[u8; 6]>)
        ensures
            match report {
                Some(bytes) => self.connected && bytes@ == spec_led_report(
                    spec_led_mask(self.current_key_leds@),
                ),
                None => !self.connected,
            },
    {
        if self.connected {
            Some(led_report(led_mask(&self.current_key_leds)))
        } else {
            None
        }
    }

    /// Takes in the outcome of the write of an output report. A report that
    /// was written changes nothing. A write that failed is a lost device, as
    /// in [`SpeedEditor::disconnect`].
    pub fn light_written(&mut self, written: bool) -> (r: SpeedEditorResult)
        requires
            old(self).wf(),
        ensures
            final(self).subscribers() == old(self).subscribers(),
            final(self).wf(),
            written ==> r == Ok::<(), SpeedEditorError>(()) && final(self)@ == old(self)@,
            !written ==> final(self)@ == old(self)@.disconnected()
                && DisconnectedHandler::<C>::delivered(old(self).subscribers().disconnected, r),
    {
        if written {
            Ok(())
        } else {
            self.disconnect()
        }
    }

    /// Switches one light on or off, and gives the output report that shows
    /// the lights then, as [`SpeedEditor::light_key_leds`] does.
    pub fn set_key_led(&mut self, led: KeyLed, on: bool) -> (report: Option<[u8; 6]>)
        ensures
            final(self)@ == (Session {
                current_key_leds: if on {
                    spec_lit_with(old(self)@.current_key_leds, led)
                } else {
                    old(self)@.current_key_leds.filter(|l: KeyLed| l != led)
                },
                ..old(self)@
            }),
            final(self).subscribers() == old(self).subscribers(),
            old(self).wf() ==> final(self).wf(),
            match report {
                Some(bytes) => final(self).connected && bytes@ == spec_led_report(
                    spec_led_mask(final(self).current_key_leds@),
                ),
                None => !final(self).connected,
            },
    {
        if on {
            self.add_key_led(led);
        } else {
            self.remove_key_led(led);
        }
        self.light_key_leds()
    }

    /// Switches the lights of a list on or off, and gives the output report
    /// that shows the lights then, as [`SpeedEditor::light_key_leds`] does.
    /// Switched on, each light of the list that is not lit joins those that
    /// are, in the order of the list; switched off, each leaves them.
    pub fn set_leds(&mut self, leds: Vec<KeyLed>, on: bool) -> (report: Option<[u8; 6]>)
        ensures
            final(self)@ == (Session {
                current_key_leds: if on {
                    spec_lit_with_all(old(self)@.current_key_leds, leds@)
                } else {
                    spec_lit_without(old(self)@.current_key_leds, leds@)
                },
                ..old(self)@
            }),
            final(self).subscribers() == old(self).subscribers(),
            old(self).wf() ==> final(self).wf(),
            match report {
                Some(bytes) => final(self).connected && bytes@ == spec_led_report(
                    spec_led_mask(final(self).current_key_leds@),
                ),
                None => !final(self).connected,
            },
    {
        let ghost lit = self.current_key_leds@;
        let mut i: usize = 0;
        proof {
            assert(leds@.take(0) == Seq::<KeyLed>::empty());
            lemma_filter_keeps_all(lit, |l: KeyLed| !leds@.take(0).contains(l));
        }
        while i < leds.len()
            invariant
                i <= leds@.len(),
                lit == old(self)@.current_key_leds,
                self@ == (Session {
                    current_key_leds: if on {
                        spec_lit_with_all(lit, leds@.take(i as int))
                    } else {
                        spec_lit_without(lit, leds@.take(i as int))
                    },
                    ..old(self)@
                }),
                self.subscribers() == old(self).subscribers(),
                old(self).wf() ==> self.wf(),
            decreases leds@.len() - i,
        {
            let led: KeyLed = leds[i];
            proof {
                assert(leds@.take(i + 1).drop_last() == leds@.take(i as int));
                if !on {
                    let shorter = leds@.take(i as int);
                    let longer = leds@.take(i + 1);
                    let before = |l: KeyLed| !shorter.contains(l);
                    let other = |l: KeyLed| l != led;
                    let after = |l: KeyLed| !longer.contains(l);
                    assert forall|l: KeyLed| #[trigger] after(l) == (before(l) && other(l)) by {
                        if l == led {
                            assert(longer.last() == l);
                        } else if shorter.contains(l) {
                            let j = choose|j: int| 0 <= j < shorter.len() && shorter[j] == l;
                            assert(longer[j] == l);
                        } else if longer.contains(l) {
                            let j = choose|j: int| 0 <= j < longer.len() && longer[j] == l;
                            assert(shorter[j] == l);
                        }
                    }
                    lemma_filter_twice(lit, before, other, after);
                }
            }
            if on {
                self.add_key_led(led);
            } else {
                self.remove_key_led(led);
            }
            i = i + 1;
        }
        assert(leds@.take(i as int) == leds@);
        self.light_key_leds()
    }

    /// Switches every light on or off, and gives the output report that shows
    /// the lights then, as [`SpeedEditor::light_key_leds`] does. Switched on,
    /// the lights that are not lit join those that are, in the order of their
    /// bit positions; switched off, no light stays lit.
    pub fn set_all_key_leds(&mut self, on: bool) -> (report: Option<[u8; 6]>)
        ensures
            final(self)@ == (Session {
                current_key_leds: if on {
                    spec_lit_with_all(old(self)@.current_key_leds, KeyLed::spec_all())
                } else {
                    Seq::empty()
                },
                ..old(self)@
            }),
            final(self).subscribers() == old(self).subscribers(),
            old(self).wf() ==> final(self).wf(),
            match report {
                Some(bytes) => final(self).connected && bytes@ == spec_led_report(
                    spec_led_mask(final(self).current_key_leds@),
                ),
                None => !final(self).connected,
            },
    {
        proof {
            let lit = self.current_key_leds@;
            let others = |l: KeyLed| !KeyLed::spec_all().contains(l);
            assert forall|i: int| 0 <= i < lit.len() implies !others(#[trigger] lit[i]) by {
                lemma_all_leds(lit[i]);
            }
            lit.lemma_all_neg_filter_empty(others);
        }
        self.set_leds(KeyLed::all(), on)
    }

    /// Tells the subscribers to the jog wheel of a turn. `buf` is what follows
    /// kind and mode in the report: its first four bytes are the raw turn, and
    /// the value told is [`spec_jog_value`] of it. Fewer than four bytes are an
    /// error, and nobody is told.
    pub fn jog_event(&mut self, mode: u8, buf: &[u8]) -> (r: SpeedEditorResult)
        requires
            old(self).wf(),
        ensures
            final(self)@ == old(self)@,
            final(self).subscribers() == old(self).subscribers(),
            final(self).wf(),
            buf@.len() < 4 ==> r == Err::<(), SpeedEditorError>(SpeedEditorError::StdIoError),
            buf@.len() >= 4 ==> JogHandler::<J>::delivered(
                old(self).subscribers().jog,
                mode,
                spec_jog_value(spec_i32_from_le(buf@.subrange(0, 4))) as i32,
                r,
            ),
    {
        match jog_value(buf) {
            Ok(value) => self.jog_handler.call(mode, value),
            Err(e) => Err(e),
        }
    }

    /// Tells the subscribers to unreadable reports of a report, whole.
    pub fn unknown_event(&mut self, buf: &[u8]) -> (r: SpeedEditorResult)
        requires
            old(self).wf(),
        ensures
            final(self)@ == old(self)@,
            final(self).subscribers() == old(self).subscribers(),
            final(self).wf(),
            UnknownHandler::<U>::delivered(old(self).subscribers().unknown, buf, r),
    {
        self.unknown_handler.call(buf)
    }

    /// Takes `keys` for the keys that are held down and tells the subscribers
    /// of the change, if there is one.
    fn update_keys(&mut self, keys: Vec<Key>) -> (r: SpeedEditorResult)
        requires
            old(self).wf(),
            !keys@.contains(Key::NoKey),
        ensures
            final(self)@ == (Session { current_keys: keys@, ..old(self)@ }),
            final(self).subscribers() == old(self).subscribers(),
            old(self).subscribers().notified_all(
                spec_key_notices(old(self)@.current_keys, keys@),
                r,
            ),
    {
        if same_keys(&keys, &self.current_keys) {
            return Ok(());
        }
        let ghost subs = self.subscribers();
        let ghost before = self.current_keys@;
        let ghost target = keys@;
        let ghost notices = spec_key_notices(before, target);
        let down: Vec<Key> = keys_gained(&self.current_keys, &keys);
        let up: Vec<Key> = keys_gained(&keys, &self.current_keys);
        self.current_keys = keys;
        let ghost downs = spec_key_transitions(down@, true);
        let ghost ups = spec_key_transitions(up@, false);
        let ghost after = self@;

        let mut i: usize = 0;
        while i < down.len()
            invariant
                i <= down@.len(),
                self@ == after,
                target == keys@,
                after == (Session { current_keys: target, ..old(self)@ }),
                self.subscribers() == subs,
                subs == old(self).subscribers(),
                notices == spec_key_notices(old(self)@.current_keys, target),
                subs.callable(),
                downs == spec_key_transitions(down@, true),
                notices.len() == downs.len() + ups.len() + 1,
                forall|j: int| 0 <= j < downs.len() ==> notices[j] == downs[j],
                forall|j: int| 0 <= j < 2 * i ==> subs.notified(#[trigger] notices[j], Ok(())),
            decreases down@.len() - i,
        {
            let key: Key = down[i];
            assert(notices[2 * i] == KeyNotice::Change(key, true));
            assert(notices[2 * i + 1] == KeyNotice::Down(key));
            self.key_handler.call(key, true)?;
            self.key_down_handler.call(key)?;
            i = i + 1;
        }

        let ghost base: int = downs.len() as int;
        let mut i: usize = 0;
        while i < up.len()
            invariant
                i <= up@.len(),
                self@ == after,
                target == keys@,
                after == (Session { current_keys: target, ..old(self)@ }),
                self.subscribers() == subs,
                subs == old(self).subscribers(),
                notices == spec_key_notices(old(self)@.current_keys, target),
                subs.callable(),
                ups == spec_key_transitions(up@, false),
                base == downs.len(),
                notices.len() == downs.len() + ups.len() + 1,
                forall|j: int| 0 <= j < ups.len() ==> notices[base + j] == ups[j],
                forall|j: int| 0 <= j < base + 2 * i ==> subs.notified(#[trigger] notices[j], Ok(())),
            decreases up@.len() - i,
        {
            let key: Key = up[i];
            assert(notices[base + 2 * i] == ups[2 * i]);
            assert(notices[base + 2 * i + 1] == ups[2 * i + 1]);
            self.key_handler.call(key, false)?;
            self.key_up_handler.call(key)?;
            i = i + 1;
        }

        let ghost last: int = notices.len() - 1;
        assert(notices[last] == KeyNotice::Snapshot(after.current_keys));
        match self.keys_handler.call(&self.current_keys) {
            Ok(done) => {
                assert(done == ());
                Ok(())
            },
            Err(e) => Err(e),
        }
    }

    /// Takes in the payload of a keys report, the bytes behind its kind.
    ///
    /// Where the payload cannot be read, the error says so and nothing
    /// changes. Otherwise the keys that it names are the keys held down from
    /// now on, and where they differ from those before, the subscribers are
    /// told, as [`spec_key_notices`] says and in that order, up to the first
    /// that fails.
    ///
    /// A report has room for a few keys only. Where more keys are held down
    /// than it has slots, two different sets of keys can give the same
    /// report, and a change from one to the other goes unseen: the session
    /// knows no more than the report tells.
    pub fn key_event(&mut self, buf: &[u8]) -> (r: SpeedEditorResult)
        requires
            old(self).wf(),
        ensures
            final(self).subscribers() == old(self).subscribers(),
            final(self).wf(),
            match spec_decode_keys(buf@) {
                Err(e) => r == Err::<(), SpeedEditorError>(e) && final(self)@ == old(self)@,
                Ok(keys) => {
                    &&& final(self)@ == (Session { current_keys: keys, ..old(self)@ })
                    &&& old(self).subscribers().notified_all(
                        spec_key_notices(old(self)@.current_keys, keys),
                        r,
                    )
                },
            },
    {
        match decode_keys(buf) {
            Ok(keys) => {
                proof {
                    lemma_decoded_keys_are_keys(spec_key_slots(buf@));
                }
                self.update_keys(keys)
            },
            Err(e) => Err(e),
        }
    }

    /// Takes in one input report, which holds at least its kind.
    ///
    /// A jog report of at least six bytes is told to the subscribers to the
    /// jog wheel, as [`SpeedEditor::jog_event`] does with its mode and the
    /// bytes behind it. A keys report whose payload can be read is taken in as
    /// [`SpeedEditor::key_event`] does. Every other report, a jog or keys
    /// report that cannot be read too, is told whole to the subscribers to
    /// unreadable reports.
    pub fn process_events(&mut self, buf: &[u8]) -> (r: SpeedEditorResult)
        requires
            old(self).wf(),
            buf@.len() > 0,
        ensures
            final(self).subscribers() == old(self).subscribers(),
            final(self).wf(),
            if buf@[0] == REPORT_JOG && buf@.len() >= JOG_REPORT_LEN {
                &&& final(self)@ == old(self)@
                &&& JogHandler::<J>::delivered(
                    old(self).subscribers().jog,
                    buf@[1],
                    spec_jog_value(spec_i32_from_le(buf@.subrange(2, 6))) as i32,
                    r,
                )
            } else if buf@[0] == REPORT_KEYS && spec_decode_keys(
                buf@.subrange(1, buf@.len() as int),
            ) is Ok {
                let keys = spec_decode_keys(buf@.subrange(1, buf@.len() as int))->Ok_0;
                &&& final(self)@ == (Session { current_keys: keys, ..old(self)@ })
                &&& old(self).subscribers().notified_all(
                    spec_key_notices(old(self)@.current_keys, keys),
                    r,
                )
            } else {
                &&& final(self)@ == old(self)@
                &&& UnknownHandler::<U>::delivered(old(self).subscribers().unknown, buf, r)
            },
    {
        let len: usize = buf.len();
        let kind: u8 = buf[0];
        if kind == REPORT_JOG && len >= JOG_REPORT_LEN {
            let payload: &[u8] = slice_subrange(buf, 2, len);
            return self.jog_event(buf[1], payload);
        }
        if kind == REPORT_KEYS {
            let payload: &[u8] = slice_subrange(buf, 1, len);
            match decode_keys(payload) {
                Ok(keys) => {
                    proof {
                        lemma_decoded_keys_are_keys(spec_key_slots(payload@));
                    }
                    return self.update_keys(keys);
                },
                Err(_) => {},
            }
        }
        self.unknown_event(buf)
    }

    /// Takes in that the device was lost: the session has no device, counts
    /// as never authenticated and is back at the start of the handshake, and
    /// the subscribers to that news are told.
    pub fn disconnect(&mut self) -> (r: SpeedEditorResult)
        requires
            old(self).wf(),
        ensures
            final(self)@ == old(self)@.disconnected(),
            final(self).subscribers() == old(self).subscribers(),
            final(self).wf(),
            DisconnectedHandler::<C>::delivered(old(self).subscribers().disconnected, r),
    {
        self.connected = false;
        self.last_authenticated_at = None;
        self.auth_stage = AuthStage::Challenge;
        self.disconnected_handler.call()
    }

    /// Takes in the outcome of an attempt to open the device.
    ///
    /// Where it was opened, the session is connected and the subscribers to
    /// that news are told; the result holds no wait. Where it was not, the
    /// session stays as it is, nobody is told, and the result is the time in
    /// milliseconds, [`RECONNECT_INTERVAL`], that the host is to wait before
    /// it asks again what to do.
    ///
    /// The lights that are lit stay as they are, and nothing is sent to show
    /// them on the new device: a host that wants them shown asks for the
    /// report, with [`SpeedEditor::light_key_leds`].
    pub fn connect(&mut self, opened: bool) -> (r: Result<Option<u64>, SpeedEditorError>)
        requires
            old(self).wf(),
        ensures
            final(self)@ == old(self)@.opened(opened),
            final(self).subscribers() == old(self).subscribers(),
            final(self).wf(),
            !opened ==> r == Ok::<Option<u64>, SpeedEditorError>(Some(RECONNECT_INTERVAL)),
            opened ==> match r {
                Ok(wait) => wait is None && ConnectedHandler::<C>::delivered(
                    old(self).subscribers().connected,
                    Ok(()),
                ),
                Err(e) => ConnectedHandler::<C>::delivered(
                    old(self).subscribers().connected,
                    Err(e),
                ),
            },
    {
        if opened {
            self.connected = true;
            match self.connected_handler.call() {
                Ok(done) => {
                    assert(done == ());
                    Ok(None)
                },
                Err(e) => Err(e),
            }
        } else {
            Ok(Some(RECONNECT_INTERVAL))
        }
    }

    /// Takes in the outcome of an exchange of control reports in the
    /// handshake, at the time `now`: the report that was read back, or
    /// nothing where the transport failed.
    ///
    /// A failed transport is a lost device, as in
    /// [`SpeedEditor::disconnect`]. A report that is the answer expected at
    /// this stage takes the handshake one stage further; at the last stage it
    /// ends the handshake, and the session is authenticated as of `now`. Any
    /// other report fails the handshake with the error of the stage; the
    /// device stays connected, and the handshake starts anew. Where no device
    /// is connected there is no handshake, and a report changes nothing.
    pub fn auth_at(&mut self, reply: Option<&[u8; 10]>, now: i64) -> (r: SpeedEditorResult)
        requires
            old(self).wf(),
        ensures
            final(self).subscribers() == old(self).subscribers(),
            final(self).wf(),
            match reply {
                None => {
                    &&& final(self)@ == old(self)@.disconnected()
                    &&& DisconnectedHandler::<C>::delivered(
                        old(self).subscribers().disconnected,
                        r,
                    )
                },
                Some(bytes) => {
                    &&& final(self)@ == old(self)@.authenticated(bytes@, now)
                    &&& r == old(self)@.auth_result(bytes@)
                },
            },
    {
        match reply {
            None => self.disconnect(),
            Some(bytes) => {
                if !self.connected {
                    return Ok(());
                }
                match auth_advance(self.auth_stage, bytes) {
                    Ok(Some(next)) => {
                        self.auth_stage = next;
                        Ok(())
                    },
                    Ok(None) => {
                        self.auth_stage = AuthStage::Challenge;
                        self.last_authenticated_at = Some(now);
                        Ok(())
                    },
                    Err(e) => {
                        self.auth_stage = AuthStage::Challenge;
                        Err(e)
                    },
                }
            },
        }
    }

    /// Takes in the outcome of an exchange of control reports in the
    /// handshake, as [`SpeedEditor::auth_at`] does, at the time that the
    /// system clock shows.
    pub fn auth(&mut self, reply: Option<&[u8; 10]>) -> (r: SpeedEditorResult)
        requires
            old(self).wf(),
        ensures
            final(self).subscribers() == old(self).subscribers(),
            final(self).wf(),
            match reply {
                None => {
                    &&& final(self)@ == old(self)@.disconnected()
                    &&& DisconnectedHandler::<C>::delivered(
                        old(self).subscribers().disconnected,
                        r,
                    )
                },
                Some(bytes) => {
                    &&& exists|now: i64| final(self)@ == #[trigger] old(self)@.authenticated(bytes@, now)
                    &&& r == old(self)@.auth_result(bytes@)
                },
            },
    {
        let now: i64 = now_millis();
        self.auth_at(reply, now)
    }

    /// Takes in the outcome of a read of an input report: the bytes that were
    /// read, none where the read timed out, or nothing where the transport
    /// failed.
    ///
    /// A failed transport is a lost device, as in
    /// [`SpeedEditor::disconnect`]. A read that timed out changes nothing. A
    /// report is taken in as [`SpeedEditor::process_events`] does.
    pub fn handle_read(&mut self, report: Option<&[u8]>) -> (r: SpeedEditorResult)
        requires
            old(self).wf(),
        ensures
            final(self).subscribers() == old(self).subscribers(),
            final(self).wf(),
            match report {
                None => {
                    &&& final(self)@ == old(self)@.disconnected()
                    &&& DisconnectedHandler::<C>::delivered(
                        old(self).subscribers().disconnected,
                        r,
                    )
                },
                Some(buf) => if buf@.len() == 0 {
                    r == Ok::<(), SpeedEditorError>(()) && final(self)@ == old(self)@
                } else if buf@[0] == REPORT_JOG && buf@.len() >= JOG_REPORT_LEN {
                    &&& final(self)@ == old(self)@
                    &&& JogHandler::<J>::delivered(
                        old(self).subscribers().jog,
                        buf@[1],
                        spec_jog_value(spec_i32_from_le(buf@.subrange(2, 6))) as i32,
                        r,
                    )
                } else if buf@[0] == REPORT_KEYS && spec_decode_keys(
                    buf@.subrange(1, buf@.len() as int),
                ) is Ok {
                    let keys = spec_decode_keys(buf@.subrange(1, buf@.len() as int))->Ok_0;
                    &&& final(self)@ == (Session { current_keys: keys, ..old(self)@ })
                    &&& old(self).subscribers().notified_all(
                        spec_key_notices(old(self)@.current_keys, keys),
                        r,
                    )
                } else {
                    &&& final(self)@ == old(self)@
                    &&& UnknownHandler::<U>::delivered(old(self).subscribers().unknown, buf, r)
                },
            },
    {
        match report {
            None => self.disconnect(),
            Some(buf) => {
                if buf.len() > 0 {
                    self.process_events(buf)
                } else {
                    Ok(())
                }
            },
        }
    }

    /// What the host is to do where a handshake is due: exchange the control
    /// report of the stage at which the handshake stands; or, where no device
    /// is connected, open the device.
    pub fn auth_or_reconnect(&self) -> (action: Action)
        ensures
            match action {
                Action::Open { vid, pid } => !self.connected && vid == VID && pid == PID,
                Action::Exchange(report) => self.connected && report@ == spec_auth_request(
                    self.auth_stage,
                ),
                Action::Read { .. } => false,
            },
    {
        if self.connected {
            Action::Exchange(auth_request(self.auth_stage))
        } else {
            Action::Open { vid: VID, pid: PID }
        }
    }

    /// What the host is to do next at the time `now`: open the device where
    /// none is connected; else go on with the handshake where one is due, at
    /// the stage at which it stands; else read an input report, waiting at
    /// most [`READ_TIMEOUT`].
    pub fn handle_loop(&self, now: i64) -> (action: Action)
        ensures
            self@.next_is(now, action),
    {
        let lapsed: bool = match self.last_authenticated_at {
            None => true,
            Some(at) => now as i128 - at as i128 > AUTH_INTERVAL as i128,
        };
        let under_way: bool = match self.auth_stage {
            AuthStage::Challenge => false,
            _ => true,
        };
        if !self.connected || lapsed || under_way {
            self.auth_or_reconnect()
        } else {
            Action::Read { timeout: READ_TIMEOUT }
        }
    }

    /// What the host is to do next, as [`SpeedEditor::handle_loop`] says for
    /// the time that the system clock shows.
    ///
    /// Whatever the clock shows: where no device is connected, the host is to
    /// open it; where a device is connected and was never authenticated, or
    /// a handshake is under way, the host is to go on with the handshake.
    pub fn run(&self) -> (action: Action)
        ensures
            exists|now: i64| #[trigger] self@.next_is(now, action),
    {
        let now: i64 = now_millis();
        self.handle_loop(now)
    }
}

} // verus!
