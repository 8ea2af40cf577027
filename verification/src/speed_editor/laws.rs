use vstd::prelude::*;
use super::auth::{spec_auth_accepts, spec_auth_reply, spec_auth_request, AuthStage, AUTH_OPCODE};
use super::bytes::{lemma_u64_le_round_trip, spec_u64_from_le, spec_u64_to_le};
use super::key::Key;
use super::key_led::KeyLed;
use super::model::{
    spec_key_notices, spec_lit_with, spec_lit_with_all, KeyNotice, Session, Subscribers,
};
use super::report::{spec_decode_keys, spec_keys_gained};
use super::{Action, SpeedEditorResult, AUTH_INTERVAL, PID, READ_TIMEOUT, VID};

verus! {

/// A keys report that comes twice in a row brings no news the second time:
/// once its keys are the keys held down, the same report changes nothing and
/// nobody is told.
pub proof fn lemma_keys_report_twice(before: Session, payload: Seq<u8>)
    requires
        spec_decode_keys(payload) is Ok,
    ensures
        ({
            let keys = spec_decode_keys(payload)->Ok_0;
            let after = Session { current_keys: keys, ..before };
            &&& spec_key_notices(after.current_keys, keys) == Seq::<KeyNotice>::empty()
            &&& (Session { current_keys: keys, ..after }) == after
        }),
{
}

/// Telling the subscribers no news cannot fail.
pub proof fn lemma_no_news_is_ok<C, S, T, K, J, U>(
    subscribers: Subscribers<C, S, T, K, J, U>,
    r: SpeedEditorResult,
) where
    C: FnMut() -> SpeedEditorResult,
    S: FnMut(Vec<Key>) -> SpeedEditorResult,
    T: FnMut(Key, bool) -> SpeedEditorResult,
    K: FnMut(Key) -> SpeedEditorResult,
    J: FnMut(u8, i32) -> SpeedEditorResult,
    U: FnMut(&[u8]) -> SpeedEditorResult,

    requires
        subscribers.notified_all(Seq::empty(), r),
    ensures
        r is Ok,
{
}

/// The news of a change of keys tells of the keys that went down before it
/// tells of those that went up, and ends with the keys held down.
pub proof fn lemma_key_notices_order(before: Seq<Key>, after: Seq<Key>, i: int)
    requires
        after != before,
        0 <= i < spec_key_notices(before, after).len(),
    ensures
        ({
            let notices = spec_key_notices(before, after);
            let down = spec_keys_gained(before, after);
            let up = spec_keys_gained(after, before);
            &&& notices.len() == 2 * down.len() + 2 * up.len() + 1
            &&& i < 2 * down.len() ==> notices[i] == if i % 2 == 0 {
                KeyNotice::Change(down[i / 2], true)
            } else {
                KeyNotice::Down(down[i / 2])
            }
            &&& 2 * down.len() <= i < 2 * down.len() + 2 * up.len() ==> notices[i] == if (i - 2
                * down.len()) % 2 == 0 {
                KeyNotice::Change(up[(i - 2 * down.len()) / 2], false)
            } else {
                KeyNotice::Up(up[(i - 2 * down.len()) / 2])
            }
            &&& i == 2 * down.len() + 2 * up.len() ==> notices[i] == KeyNotice::Snapshot(after)
        }),
{
}

/// While no device is connected, the host is only ever told to open it,
/// whatever the time: no handshake is asked for and no read. An attempt that
/// fails leaves the session as it was.
pub proof fn lemma_absent_device(session: Session, now: i64, action: Action)
    requires
        !session.connected,
        session.next_is(now, action),
    ensures
        action == (Action::Open { vid: VID, pid: PID }),
        session.opened(false) == session,
{
}

/// A device that has just been opened was never authenticated, and its
/// handshake stands at the start; so does a session whose device was lost.
pub proof fn lemma_new_device_unauthenticated(session: Session)
    requires
        session.wf(),
        !session.connected,
    ensures
        session.opened(true) == (Session {
            connected: true,
            last_authenticated_at: None,
            auth_stage: AuthStage::Challenge,
            ..session
        }),
        session.opened(true).wf(),
        session.opened(true).disconnected() == session,
{
}

/// A device that is connected and was never authenticated is not read from,
/// whatever the time: the host is told to exchange the control report of the
/// handshake's stage.
pub proof fn lemma_handshake_before_read(session: Session, now: i64, action: Action)
    requires
        session.connected,
        session.last_authenticated_at is None,
        session.next_is(now, action),
    ensures
        action matches Action::Exchange(report) && report@ == spec_auth_request(
            session.auth_stage,
        ),
{
}

/// A device whose authentication is no older than [`AUTH_INTERVAL`], with no
/// handshake under way, is read from; one whose authentication is older is
/// asked for a challenge.
pub proof fn lemma_authentication_lapses(session: Session, at: i64, now: i64, action: Action)
    requires
        session.connected,
        session.auth_stage == AuthStage::Challenge,
        session.last_authenticated_at == Some(at),
        session.next_is(now, action),
    ensures
        now - at <= AUTH_INTERVAL ==> action == (Action::Read { timeout: READ_TIMEOUT }),
        now - at > AUTH_INTERVAL ==> (action matches Action::Exchange(report) && report@
            == spec_auth_request(AuthStage::Challenge)),
{
}

/// A session becomes authenticated only by the last answer of a handshake:
/// where an answer changes the time of the last authentication, a device is
/// connected, the handshake stood at its last stage, the answer was the
/// expected one, and the time is that of the answer.
pub proof fn lemma_authenticated_at_end(session: Session, reply: Seq<u8>, now: i64)
    requires
        session.authenticated(reply, now).last_authenticated_at
            != session.last_authenticated_at,
    ensures
        session.connected,
        session.auth_stage is Status,
        spec_auth_accepts(session.auth_stage, reply),
        session.authenticated(reply, now).last_authenticated_at == Some(now),
{
}

/// A handshake from its start: three expected answers in a row take it
/// through its three stages, with the challenge of the first answer, and
/// only the third authenticates the session. The last request spells the
/// reply to that challenge behind its first two bytes.
pub proof fn lemma_handshake(
    session: Session,
    first: Seq<u8>,
    second: Seq<u8>,
    third: Seq<u8>,
    now: i64,
)
    requires
        session.connected,
        session.auth_stage == AuthStage::Challenge,
        spec_auth_accepts(AuthStage::Challenge, first),
        spec_auth_accepts(session.authenticated(first, now).auth_stage, second),
        spec_auth_accepts(
            session.authenticated(first, now).authenticated(second, now).auth_stage,
            third,
        ),
    ensures
        ({
            let challenge = spec_u64_from_le(first.subrange(2, 10)) as u64;
            let one = session.authenticated(first, now);
            let two = one.authenticated(second, now);
            let three = two.authenticated(third, now);
            let request = spec_auth_request(two.auth_stage);
            &&& one == Session { auth_stage: AuthStage::Response(challenge), ..session }
            &&& two == Session { auth_stage: AuthStage::Status(challenge), ..session }
            &&& three == Session { last_authenticated_at: Some(now), ..session }
            &&& request.len() == 10
            &&& request[0] == AUTH_OPCODE
            &&& request[1] == 3
            &&& spec_u64_from_le(request.subrange(2, 10)) == spec_auth_reply(challenge)
        }),
{
    let challenge = spec_u64_from_le(first.subrange(2, 10)) as u64;
    let reply = spec_auth_reply(challenge);
    lemma_u64_le_round_trip(reply);
    assert(spec_auth_request(AuthStage::Status(challenge)).subrange(2, 10) == spec_u64_to_le(
        reply,
    ));
}

/// A light that is switched on is lit, once, whether or not it was lit
/// before; the lights that were lit stay lit, in their places.
pub proof fn lemma_lit_with(lit: Seq<KeyLed>, led: KeyLed)
    requires
        lit.no_duplicates(),
    ensures
        spec_lit_with(lit, led).no_duplicates(),
        spec_lit_with(lit, led).contains(led),
        forall|l: KeyLed| spec_lit_with(lit, led).contains(l) <==> lit.contains(l) || l == led,
        lit.is_prefix_of(spec_lit_with(lit, led)),
        spec_lit_with(spec_lit_with(lit, led), led) == spec_lit_with(lit, led),
{
    let with = spec_lit_with(lit, led);
    if !lit.contains(led) {
        assert(with[with.len() - 1] == led);
        assert forall|l: KeyLed| with.contains(l) implies lit.contains(l) || l == led by {
            let i = choose|i: int| 0 <= i < with.len() && with[i] == l;
            if i < lit.len() {
                assert(lit[i] == l);
            }
        }
        assert forall|l: KeyLed| lit.contains(l) implies with.contains(l) by {
            let i = choose|i: int| 0 <= i < lit.len() && lit[i] == l;
            assert(with[i] == l);
        }
    }
}

/// The lights of a list that are switched on are lit, each once, together
/// with those that were lit before, and no others.
pub proof fn lemma_lit_with_all(lit: Seq<KeyLed>, leds: Seq<KeyLed>)
    requires
        lit.no_duplicates(),
    ensures
        spec_lit_with_all(lit, leds).no_duplicates(),
        forall|l: KeyLed|
            spec_lit_with_all(lit, leds).contains(l) <==> lit.contains(l) || leds.contains(l),
        lit.is_prefix_of(spec_lit_with_all(lit, leds)),
    decreases leds.len(),
{
    if leds.len() > 0 {
        let rest = leds.drop_last();
        let last = leds.last();
        let before = spec_lit_with_all(lit, rest);
        lemma_lit_with_all(lit, rest);
        lemma_lit_with(before, last);
        assert forall|l: KeyLed| leds.contains(l) <==> rest.contains(l) || l == last by {
            if rest.contains(l) {
                let i = choose|i: int| 0 <= i < rest.len() && rest[i] == l;
                assert(leds[i] == l);
            }
            if leds.contains(l) && l != last {
                let i = choose|i: int| 0 <= i < leds.len() && leds[i] == l;
                assert(rest[i] == l);
            }
            if l == last {
                assert(leds[leds.len() - 1] == l);
            }
        }
    }
}

} // verus!
