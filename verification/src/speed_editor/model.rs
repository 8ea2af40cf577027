use vstd::prelude::*;
use super::auth::{spec_auth_advance, spec_auth_request, AuthStage};
use super::handler::{
    ConnectedHandler, DisconnectedHandler, JogHandler, KeyDownHandler, KeyHandler, KeyUpHandler,
    KeysHandler, UnknownHandler,
};
use super::key::Key;
use super::key_led::KeyLed;
use super::report::spec_keys_gained;
use super::{Action, SpeedEditorResult, AUTH_INTERVAL, PID, READ_TIMEOUT, VID};

verus! {

/// The state of a session, as the contracts speak of it.
#[verifier::ext_equal]
pub struct Session {
    pub connected: bool,
    pub last_authenticated_at: Option<i64>,
    pub auth_stage: AuthStage,
    pub current_keys: Seq<Key>,
    pub current_key_leds: Seq<KeyLed>,
}

/// The subscribers of a session by class of event, each list in the order of
/// subscription, as the contracts speak of them.
#[verifier::ext_equal]
pub struct Subscribers<C, S, T, K, J, U> {
    pub connected: Seq<C>,
    pub disconnected: Seq<C>,
    pub keys: Seq<S>,
    pub key: Seq<T>,
    pub key_down: Seq<K>,
    pub key_up: Seq<K>,
    pub jog: Seq<J>,
    pub unknown: Seq<U>,
}

/// A piece of news about the keys, as the contracts speak of it.
pub enum KeyNotice {
    /// A key went down (`true`) or up, for the subscribers to both.
    Change(Key, bool),
    /// A key went down.
    Down(Key),
    /// A key went up.
    Up(Key),
    /// The keys that are held down now.
    Snapshot(Seq<Key>),
}

/// The news of keys that all went down (`down`) or all went up, in their
/// order: for each key the news of the change, then that of its direction.
pub open spec fn spec_key_transitions(keys: Seq<Key>, down: bool) -> Seq<KeyNotice> {
    Seq::new(
        2 * keys.len(),
        |i: int|
            if i % 2 == 0 {
                KeyNotice::Change(keys[i / 2], down)
            } else if down {
                KeyNotice::Down(keys[i / 2])
            } else {
                KeyNotice::Up(keys[i / 2])
            },
    )
}

/// The news that a keys report brings when the keys held down were `before`
/// and the report says `after`: none where the two are the same; otherwise
/// the keys that went down, in the order of `after`, then the keys that went
/// up, in the order of `before`, then once the keys held down now.
pub open spec fn spec_key_notices(before: Seq<Key>, after: Seq<Key>) -> Seq<KeyNotice> {
    if after == before {
        Seq::empty()
    } else {
        spec_key_transitions(spec_keys_gained(before, after), true) + spec_key_transitions(
            spec_keys_gained(after, before),
            false,
        ) + seq![KeyNotice::Snapshot(after)]
    }
}

/// The lights that are lit once a light is switched on: the same where it was
/// lit already, else with the light behind them.
pub open spec fn spec_lit_with(lit: Seq<KeyLed>, led: KeyLed) -> Seq<KeyLed> {
    if lit.contains(led) {
        lit
    } else {
        lit.push(led)
    }
}

/// The lights that are lit once the lights of a list are switched on, one
/// after the other in the order of the list.
pub open spec fn spec_lit_with_all(lit: Seq<KeyLed>, leds: Seq<KeyLed>) -> Seq<KeyLed>
    decreases leds.len(),
{
    if leds.len() == 0 {
        lit
    } else {
        spec_lit_with(spec_lit_with_all(lit, leds.drop_last()), leds.last())
    }
}

/// The lights that are lit once the lights of a list are switched off: those
/// that the list does not hold, in their order.
pub open spec fn spec_lit_without(lit: Seq<KeyLed>, leds: Seq<KeyLed>) -> Seq<KeyLed> {
    lit.filter(|l: KeyLed| !leds.contains(l))
}

impl Session {
    /// The state is well formed: no key that is held down is the marker of an
    /// empty slot, no light is lit twice, and a session without a device was
    /// never authenticated and stands at the start of the handshake.
    pub open spec fn wf(self) -> bool {
        &&& !self.current_keys.contains(Key::NoKey)
        &&& self.current_key_leds.no_duplicates()
        &&& !self.connected ==> self.last_authenticated_at is None && self.auth_stage
            == AuthStage::Challenge
    }

    /// The session after the device was lost: no device, never
    /// authenticated, the handshake back at its start.
    pub open spec fn disconnected(self) -> Session {
        Session {
            connected: false,
            last_authenticated_at: None,
            auth_stage: AuthStage::Challenge,
            ..self
        }
    }

    /// The session after an attempt to open the device: connected where the
    /// device was opened, and as it was where it was not.
    pub open spec fn opened(self, opened: bool) -> Session {
        if opened {
            Session { connected: true, ..self }
        } else {
            self
        }
    }

    /// The session after a control report was read back in the handshake, at
    /// the time `now`: a step further in the handshake; or, at its end,
    /// authenticated as of `now`; or, where the report is not the expected
    /// answer, back at the start of the handshake. A session without a device
    /// has no handshake and stays as it is.
    pub open spec fn authenticated(self, reply: Seq<u8>, now: i64) -> Session {
        if !self.connected {
            self
        } else {
            match spec_auth_advance(self.auth_stage, reply) {
                Err(_) => Session { auth_stage: AuthStage::Challenge, ..self },
                Ok(Some(next)) => Session { auth_stage: next, ..self },
                Ok(None) => Session {
                    auth_stage: AuthStage::Challenge,
                    last_authenticated_at: Some(now),
                    ..self
                },
            }
        }
    }

    /// What taking in that control report returns: the error of the stage
    /// where the report is not the expected answer, and `Ok` otherwise.
    pub open spec fn auth_result(self, reply: Seq<u8>) -> SpeedEditorResult {
        if !self.connected {
            Ok(())
        } else {
            match spec_auth_advance(self.auth_stage, reply) {
                Ok(_) => Ok(()),
                Err(e) => Err(e),
            }
        }
    }

    /// Whether a handshake is due at the time `now`: one is under way, or the
    /// device was never authenticated, or the last authentication is more
    /// than [`AUTH_INTERVAL`] old.
    pub open spec fn auth_due(self, now: i64) -> bool {
        ||| self.auth_stage != AuthStage::Challenge
        ||| match self.last_authenticated_at {
            None => true,
            Some(at) => now - at > AUTH_INTERVAL,
        }
    }

    /// Whether `action` is what the host is to do next at the time `now`:
    /// open the device where none is connected; else continue the handshake
    /// where one is due; else read an input report.
    pub open spec fn next_is(self, now: i64, action: Action) -> bool {
        match action {
            Action::Open { vid, pid } => !self.connected && vid == VID && pid == PID,
            Action::Exchange(report) => self.connected && self.auth_due(now) && report@
                == spec_auth_request(self.auth_stage),
            Action::Read { timeout } => self.connected && !self.auth_due(now) && timeout
                == READ_TIMEOUT,
        }
    }
}

impl<C, S, T, K, J, U> Subscribers<C, S, T, K, J, U> where
    C: FnMut() -> SpeedEditorResult,
    S: FnMut(Vec<Key>) -> SpeedEditorResult,
    T: FnMut(Key, bool) -> SpeedEditorResult,
    K: FnMut(Key) -> SpeedEditorResult,
    J: FnMut(u8, i32) -> SpeedEditorResult,
    U: FnMut(&[u8]) -> SpeedEditorResult,
 {
    /// Every subscriber may be called, whatever the event holds.
    pub open spec fn callable(self) -> bool {
        &&& ConnectedHandler::<C>::callable(self.connected)
        &&& DisconnectedHandler::<C>::callable(self.disconnected)
        &&& KeysHandler::<S>::callable(self.keys)
        &&& KeyHandler::<T>::callable(self.key)
        &&& KeyDownHandler::<K>::callable(self.key_down)
        &&& KeyUpHandler::<K>::callable(self.key_up)
        &&& JogHandler::<J>::callable(self.jog)
        &&& UnknownHandler::<U>::callable(self.unknown)
    }

    /// What telling the subscribers one piece of news about the keys may
    /// return.
    pub open spec fn notified(self, notice: KeyNotice, r: SpeedEditorResult) -> bool {
        match notice {
            KeyNotice::Change(key, down) => KeyHandler::<T>::delivered(self.key, key, down, r),
            KeyNotice::Down(key) => KeyDownHandler::<K>::delivered(self.key_down, key, r),
            KeyNotice::Up(key) => KeyUpHandler::<K>::delivered(self.key_up, key, r),
            KeyNotice::Snapshot(keys) => KeysHandler::<S>::delivered(self.keys, keys, r),
        }
    }

    /// What telling the subscribers a sequence of news about the keys may
    /// return: `Ok` where every piece is delivered; an error where the
    /// delivery of some piece returns it and every piece before is delivered.
    pub open spec fn notified_all(self, notices: Seq<KeyNotice>, r: SpeedEditorResult) -> bool {
        match r {
            Ok(()) => forall|i: int|
                0 <= i < notices.len() ==> self.notified(#[trigger] notices[i], r),
            Err(_) => exists|i: int|
                {
                    &&& 0 <= i < notices.len()
                    &&& self.notified(#[trigger] notices[i], r)
                    &&& forall|j: int| 0 <= j < i ==> self.notified(#[trigger] notices[j], Ok(()))
                },
        }
    }
}

} // verus!
