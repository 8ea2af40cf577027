use vstd::prelude::*;
use super::bytes::{
    i32_from_le, lemma_u32_le_round_trip, spec_i32_from_le, spec_u32_from_le, spec_u32_to_le,
    u32_to_le,
};
use super::key::Key;
use super::key_led::KeyLed;
use super::SpeedEditorError;

verus! {

/// The first byte of an input report that tells of the jog wheel.
pub const REPORT_JOG: u8 = 3;

/// The first byte of an input report that tells of the keys.
pub const REPORT_KEYS: u8 = 4;

/// The first byte of the output report that sets the lights.
pub const REPORT_LEDS: u8 = 2;

/// The raw turn of the wheel that counts as one step of the jog value.
pub const JOG_DIVISOR: i32 = 360;

/// The least length of a jog report: kind, mode and four bytes of turn.
pub const JOG_REPORT_LEN: usize = 6;

/// The key slots of the payload of a keys report: its bytes at the even
/// indices 0, 2, 4, ..., in that order. The bytes between them are padding.
pub open spec fn spec_key_slots(payload: Seq<u8>) -> Seq<u8> {
    Seq::new(((payload.len() + 1) / 2) as nat, |i: int| payload[2 * i])
}

/// The keys that a sequence of slots names, in slot order. A slot of 0 is
/// empty. The first slot whose code names no key makes the whole sequence
/// unreadable, and the error tells that code.
pub open spec fn spec_decode_slots(slots: Seq<u8>) -> Result<Seq<Key>, SpeedEditorError>
    decreases slots.len(),
{
    if slots.len() == 0 {
        Ok(Seq::empty())
    } else {
        match spec_decode_slots(slots.drop_last()) {
            Err(e) => Err(e),
            Ok(keys) => {
                let code = slots.last();
                if code == 0 {
                    Ok(keys)
                } else {
                    match Key::spec_from_code(code) {
                        Some(key) => Ok(keys.push(key)),
                        None => Err(SpeedEditorError::KeyDecodeError(code)),
                    }
                }
            },
        }
    }
}

/// The keys that the payload of a keys report says are held down.
pub open spec fn spec_decode_keys(payload: Seq<u8>) -> Result<Seq<Key>, SpeedEditorError> {
    spec_decode_slots(spec_key_slots(payload))
}

/// The keys of `after` that `before` does not hold, in the order of `after`.
pub open spec fn spec_keys_gained(before: Seq<Key>, after: Seq<Key>) -> Seq<Key> {
    after.filter(|k: Key| !before.contains(k))
}

/// The jog value of a raw turn of the wheel: the turn divided by 360, rounded
/// toward zero.
pub open spec fn spec_jog_value(raw: int) -> int {
    if raw >= 0 {
        raw / 360
    } else {
        -((-raw) / 360)
    }
}

/// The bitmask of a list of lights: bit `b` is set where the list holds the
/// light at position `b`.
pub open spec fn spec_led_mask(leds: Seq<KeyLed>) -> u32
    decreases leds.len(),
{
    if leds.len() == 0 {
        0
    } else {
        spec_led_mask(leds.drop_last()) | (1u32 << leds.last().spec_bit())
    }
}

/// The output report that sets the lights to a bitmask: the tag, the mask in
/// little-endian order, and a byte of padding.
pub open spec fn spec_led_report(mask: u32) -> Seq<u8> {
    seq![REPORT_LEDS] + spec_u32_to_le(mask) + seq![0u8]
}

/// Reads the payload of a keys report: the keys that it says are held down,
/// in slot order, or the error of the first code that names no key.
pub fn decode_keys(payload: &[u8]) -> (r: Result<Vec<Key>, SpeedEditorError>)
    ensures
        match r {
            Ok(keys) => spec_decode_keys(payload@) == Ok::<Seq<Key>, SpeedEditorError>(keys@),
            Err(e) => spec_decode_keys(payload@) == Err::<Seq<Key>, SpeedEditorError>(e),
        },
{
    let len: usize = payload.len();
    let count: usize = len / 2 + len % 2;
    let ghost slots = spec_key_slots(payload@);
    let mut keys: Vec<Key> = Vec::new();
    let mut slot: usize = 0;
    while slot < count
        invariant
            len == payload@.len(),
            count == slots.len(),
            slots == spec_key_slots(payload@),
            slot <= count,
            spec_decode_slots(slots.take(slot as int)) == Ok::<Seq<Key>, SpeedEditorError>(keys@),
        decreases count - slot,
    {
        let code: u8 = payload[2 * slot];
        proof {
            assert(slots.take(slot + 1).drop_last() == slots.take(slot as int));
        }
        if code != 0 {
            match Key::from_code(code) {
                Some(key) => {
                    keys.push(key);
                },
                None => {
                    proof {
                        lemma_decode_slots_fails(slots, slot + 1);
                    }
                    return Err(SpeedEditorError::KeyDecodeError(code));
                },
            }
        }
        slot = slot + 1;
    }
    proof {
        assert(slots.take(slot as int) == slots);
    }
    Ok(keys)
}

/// Whether a list of keys holds a key.
pub fn holds_key(keys: &Vec<Key>, key: Key) -> (held: bool)
    ensures
        held == keys@.contains(key),
{
    let mut i: usize = 0;
    while i < keys.len()
        invariant
            i <= keys@.len(),
            !keys@.take(i as int).contains(key),
        decreases keys@.len() - i,
    {
        if keys[i] == key {
            return true;
        }
        i = i + 1;
    }
    assert(keys@.take(i as int) == keys@);
    false
}

/// Whether a list of lights holds a light.
pub fn holds_led(leds: &Vec<KeyLed>, led: KeyLed) -> (held: bool)
    ensures
        held == leds@.contains(led),
{
    let mut i: usize = 0;
    while i < leds.len()
        invariant
            i <= leds@.len(),
            !leds@.take(i as int).contains(led),
        decreases leds@.len() - i,
    {
        if leds[i] == led {
            return true;
        }
        assert(leds@.take(i + 1) == leds@.take(i as int).push(leds@[i as int]));
        i = i + 1;
    }
    assert(leds@.take(i as int) == leds@);
    false
}

/// Whether two lists of keys hold the same keys in the same order.
pub fn same_keys(a: &Vec<Key>, b: &Vec<Key>) -> (same: bool)
    ensures
        same == (a@ == b@),
{
    if a.len() != b.len() {
        return false;
    }
    let mut i: usize = 0;
    while i < a.len()
        invariant
            a@.len() == b@.len(),
            i <= a@.len(),
            a@.take(i as int) == b@.take(i as int),
        decreases a@.len() - i,
    {
        if a[i] != b[i] {
            return false;
        }
        i = i + 1;
    }
    assert(a@.take(i as int) == a@);
    assert(b@.take(i as int) == b@);
    true
}

/// Picks the keys of `after` that `before` does not hold, in the order of
/// `after`.
pub fn keys_gained(before: &Vec<Key>, after: &Vec<Key>) -> (gained: Vec<Key>)
    ensures
        gained@ == spec_keys_gained(before@, after@),
{
    let ghost absent = |k: Key| !before@.contains(k);
    let mut gained: Vec<Key> = Vec::new();
    let mut i: usize = 0;
    while i < after.len()
        invariant
            i <= after@.len(),
            absent == |k: Key| !before@.contains(k),
            gained@ == after@.take(i as int).filter(absent),
        decreases after@.len() - i,
    {
        let key: Key = after[i];
        proof {
            assert(after@.take(i + 1) == after@.take(i as int).push(key));
            after@.take(i as int).lemma_filter_push(key, absent);
        }
        if !holds_key(before, key) {
            gained.push(key);
        }
        i = i + 1;
    }
    assert(after@.take(i as int) == after@);
    gained
}

/// Reads the jog value from the payload of a jog report, the bytes behind its
/// kind and mode: the first four bytes are the raw turn, a little-endian signed
/// number, and the value is that turn divided by 360, rounded toward zero. A
/// payload of fewer than four bytes is an error.
pub fn jog_value(payload: &[u8]) -> (r: Result<i32, SpeedEditorError>)
    ensures
        payload@.len() < 4 ==> r == Err::<i32, SpeedEditorError>(SpeedEditorError::StdIoError),
        payload@.len() >= 4 ==> r is Ok && r->Ok_0 == spec_jog_value(
            spec_i32_from_le(payload@.subrange(0, 4)),
        ),
{
    if payload.len() < 4 {
        return Err(SpeedEditorError::StdIoError);
    }
    let raw: i32 = i32_from_le(payload, 0);
    Ok(raw / JOG_DIVISOR)
}

/// Computes the bitmask of a list of lights.
pub fn led_mask(leds: &Vec<KeyLed>) -> (mask: u32)
    ensures
        mask == spec_led_mask(leds@),
{
    let mut mask: u32 = 0;
    let mut i: usize = 0;
    while i < leds.len()
        invariant
            i <= leds@.len(),
            mask == spec_led_mask(leds@.take(i as int)),
        decreases leds@.len() - i,
    {
        assert(leds@.take(i + 1).drop_last() == leds@.take(i as int));
        mask = mask | (1u32 << leds[i].bit());
        i = i + 1;
    }
    assert(leds@.take(i as int) == leds@);
    mask
}

/// Builds the output report that sets the lights to a bitmask.
pub fn led_report(mask: u32) -> (report: [u8; 6])
    ensures
        report@ == spec_led_report(mask),
{
    let b: [u8; 4] = u32_to_le(mask);
    [REPORT_LEDS, b[0], b[1], b[2], b[3], 0]
}

/// Once a prefix of the slots is unreadable, the whole is, with the same error.
pub proof fn lemma_decode_slots_fails(slots: Seq<u8>, n: int)
    requires
        0 <= n <= slots.len(),
        spec_decode_slots(slots.take(n)) is Err,
    ensures
        spec_decode_slots(slots) == spec_decode_slots(slots.take(n)),
    decreases slots.len() - n,
{
    if n < slots.len() {
        assert(slots.take(n + 1).drop_last() == slots.take(n));
        lemma_decode_slots_fails(slots, n + 1);
    } else {
        assert(slots.take(n) == slots);
    }
}

/// No key that a keys report yields is the marker of an empty slot.
pub proof fn lemma_decoded_keys_are_keys(slots: Seq<u8>)
    ensures
        spec_decode_slots(slots) matches Ok(keys) ==> !keys.contains(Key::NoKey),
    decreases slots.len(),
{
    if slots.len() > 0 {
        lemma_decoded_keys_are_keys(slots.drop_last());
    }
}

/// The keys that a keys report yields are, by their codes, the slots of the
/// report that are not empty, in slot order.
pub proof fn lemma_decoded_keys_codes(slots: Seq<u8>)
    ensures
        spec_decode_slots(slots) matches Ok(keys) ==> keys.map_values(|k: Key| k.spec_code())
            == slots.filter(|c: u8| c != 0),
    decreases slots.len(),
{
    reveal(Seq::filter);
    if slots.len() > 0 {
        lemma_decoded_keys_codes(slots.drop_last());
    }
}

/// A keys report can be read exactly where each of its slots is empty or
/// holds the code of a key; where it cannot, the error tells the code of the
/// first slot that is neither.
pub proof fn lemma_decode_slots_total(slots: Seq<u8>)
    ensures
        match spec_decode_slots(slots) {
            Ok(_) => forall|i: int|
                0 <= i < slots.len() ==> #[trigger] slots[i] == 0 || Key::spec_from_code(
                    slots[i],
                ) is Some,
            Err(e) => exists|i: int|
                {
                    &&& 0 <= i < slots.len()
                    &&& #[trigger] slots[i] != 0
                    &&& Key::spec_from_code(slots[i]) is None
                    &&& e == SpeedEditorError::KeyDecodeError(slots[i])
                    &&& forall|j: int|
                        0 <= j < i ==> #[trigger] slots[j] == 0 || Key::spec_from_code(
                            slots[j],
                        ) is Some
                },
        },
    decreases slots.len(),
{
    if slots.len() > 0 {
        let rest = slots.drop_last();
        lemma_decode_slots_total(rest);
        match spec_decode_slots(rest) {
            Ok(_) => {
                assert forall|j: int| 0 <= j < rest.len() implies #[trigger] slots[j] == 0
                    || Key::spec_from_code(slots[j]) is Some by {
                    assert(rest[j] == slots[j]);
                }
            },
            Err(e) => {
                let i = choose|i: int|
                    {
                        &&& 0 <= i < rest.len()
                        &&& #[trigger] rest[i] != 0
                        &&& Key::spec_from_code(rest[i]) is None
                        &&& e == SpeedEditorError::KeyDecodeError(rest[i])
                        &&& forall|j: int|
                            0 <= j < i ==> #[trigger] rest[j] == 0 || Key::spec_from_code(
                                rest[j],
                            ) is Some
                    };
                assert forall|j: int| 0 <= j < i implies #[trigger] slots[j] == 0
                    || Key::spec_from_code(slots[j]) is Some by {
                    assert(rest[j] == slots[j]);
                }
            },
        }
    }
}

/// A keys report whose every slot is empty yields no key.
pub proof fn lemma_empty_slots_decode(slots: Seq<u8>)
    requires
        forall|i: int| 0 <= i < slots.len() ==> slots[i] == 0,
    ensures
        spec_decode_slots(slots) == Ok::<Seq<Key>, SpeedEditorError>(Seq::empty()),
    decreases slots.len(),
{
    if slots.len() > 0 {
        lemma_empty_slots_decode(slots.drop_last());
    }
}

/// Filtering by a condition that every element meets keeps the sequence.
pub proof fn lemma_filter_keeps_all<A>(s: Seq<A>, keep: spec_fn(A) -> bool)
    requires
        forall|i: int| 0 <= i < s.len() ==> keep(#[trigger] s[i]),
    ensures
        s.filter(keep) == s,
    decreases s.len(),
{
    reveal(Seq::filter);
    if s.len() > 0 {
        lemma_filter_keeps_all(s.drop_last(), keep);
    }
}

/// Filtering a sequence in which nothing occurs twice leaves one in which
/// nothing occurs twice.
pub proof fn lemma_filter_no_duplicates<A>(s: Seq<A>, keep: spec_fn(A) -> bool)
    requires
        s.no_duplicates(),
    ensures
        s.filter(keep).no_duplicates(),
    decreases s.len(),
{
    reveal(Seq::filter);
    if s.len() > 0 {
        let rest = s.drop_last();
        lemma_filter_no_duplicates(rest, keep);
        if keep(s.last()) {
            if rest.filter(keep).contains(s.last()) {
                rest.lemma_filter_contains_rev(keep, s.last());
                let i = choose|i: int| 0 <= i < rest.len() && rest[i] == s.last();
                assert(s[i] == s[s.len() - 1]);
            }
        }
    }
}

/// Filtering twice is filtering once by both conditions.
pub proof fn lemma_filter_twice<A>(
    s: Seq<A>,
    first: spec_fn(A) -> bool,
    second: spec_fn(A) -> bool,
    both: spec_fn(A) -> bool,
)
    requires
        forall|a: A| #[trigger] both(a) == (first(a) && second(a)),
    ensures
        s.filter(first).filter(second) == s.filter(both),
    decreases s.len(),
{
    reveal(Seq::filter);
    if s.len() > 0 {
        let rest = s.drop_last();
        let last = s.last();
        lemma_filter_twice(rest, first, second, both);
        rest.lemma_filter_push(last, first);
        rest.lemma_filter_push(last, both);
        if first(last) {
            rest.filter(first).lemma_filter_push(last, second);
        }
    }
}

/// The output report for a bitmask is six bytes: the tag, four bytes that
/// spell the bitmask, and a zero.
pub proof fn lemma_led_report_spells_mask(mask: u32)
    ensures
        spec_led_report(mask).len() == 6,
        spec_led_report(mask)[0] == REPORT_LEDS,
        spec_u32_from_le(spec_led_report(mask).subrange(1, 5)) == mask,
        spec_led_report(mask)[5] == 0,
{
    lemma_u32_le_round_trip(mask);
}

/// Bit `b` of the bitmask of a list of lights is set exactly where the list
/// holds the light at position `b`.
pub proof fn lemma_led_mask_bit(leds: Seq<KeyLed>, b: u32)
    requires
        b < 32,
    ensures
        ((spec_led_mask(leds) >> b) & 1 == 1) <==> exists|i: int|
            0 <= i < leds.len() && (#[trigger] leds[i]).spec_bit() == b,
    decreases leds.len(),
{
    if leds.len() == 0 {
        assert((0u32 >> b) & 1 == 0) by (bit_vector);
    } else {
        let rest = leds.drop_last();
        let m = spec_led_mask(rest);
        let p = leds.last().spec_bit();
        lemma_led_mask_bit(rest, b);
        assert((((m | (1u32 << p)) >> b) & 1 == 1) <==> ((m >> b) & 1 == 1) || p == b)
            by (bit_vector)
            requires
                b < 32,
                p < 32,
        ;
        if (m >> b) & 1 == 1 {
            let i = choose|i: int| 0 <= i < rest.len() && (#[trigger] rest[i]).spec_bit() == b;
            assert(leds[i].spec_bit() == b);
        }
        if p == b {
            assert(leds[leds.len() - 1].spec_bit() == b);
        }
        if exists|i: int| 0 <= i < leds.len() && (#[trigger] leds[i]).spec_bit() == b {
            let i = choose|i: int| 0 <= i < leds.len() && (#[trigger] leds[i]).spec_bit() == b;
            if i < rest.len() {
                assert(rest[i].spec_bit() == b);
            }
        }
    }
}

} // verus!
