use vstd::prelude::*;
use super::bytes::{spec_u64_from_le, spec_u64_to_le, u64_from_le, u64_to_le};
use super::SpeedEditorError;

verus! {

/// The keys that a reply is mixed with when its parity test holds, by residue.
pub const AUTH_EVEN_TBL: [u64; 8] = [
    4242707987619187656,
    3069963097229903046,
    2352841328256802570,
    12646368222702737177,
    17018789593460232529,
    12706253227766860309,
    11978781369061872007,
    8438608961089703390,
];

/// The keys that a reply is mixed with when its parity test fails, by residue.
pub const AUTH_ODD_TBL: [u64; 8] = [
    4477338132788707294,
    2622620659002747676,
    11637077509869926595,
    7923852755392722584,
    8224257920127642516,
    4049197610885016386,
    18266591397768539273,
    7035737829027231430,
];

/// The bits of the rotated value that enter the reply.
pub const MASK: u64 = 12077075256910773232;

/// The opcode that every control report of the handshake starts with.
pub const AUTH_OPCODE: u8 = 6;

/// A 64-bit value turned by one byte: the lowest byte becomes the highest and
/// every other byte moves one place down.
pub open spec fn spec_rol8(v: u64) -> u64 {
    (v << 56) | (v >> 8)
}

/// A 64-bit value turned by one byte, `n` times over.
pub open spec fn spec_rol8n(v: u64, n: nat) -> u64
    decreases n,
{
    if n == 0 {
        v
    } else {
        spec_rol8(spec_rol8n(v, (n - 1) as nat))
    }
}

/// The reply that the device expects to a challenge.
///
/// With `n` the low three bits of the challenge and `v` the challenge turned
/// by `n` bytes: where bit 0 of `v` equals bit `n` of 120, the reply mixes `v`
/// with the even key of `n`; otherwise `v` is first folded with its own turn
/// and the odd key of `n` is used.
pub open spec fn spec_auth_reply(challenge: u64) -> u64 {
    let n = challenge & 7;
    let v = spec_rol8n(challenge, n as nat);
    if (v & 1) == ((120u64 >> n) & 1) {
        v ^ (spec_rol8(v) & MASK) ^ AUTH_EVEN_TBL[n as int]
    } else {
        let w = v ^ spec_rol8(v);
        w ^ (spec_rol8(w) & MASK) ^ AUTH_ODD_TBL[n as int]
    }
}

/// How far a handshake has come: the exchange of control reports that comes
/// next. A handshake is three exchanges, each a report sent and a report read
/// back, and starts at [`AuthStage::Challenge`].
#[derive(Clone, Copy, PartialEq, Eq, Debug, Structural)]
pub enum AuthStage {
    /// Ask the device for a challenge.
    Challenge,
    /// Tell the device that the response to its challenge, held here, is ready.
    Response(u64),
    /// Send the reply to the challenge held here and learn the verdict.
    Status(u64),
}

/// The control report that the host sends at a stage of the handshake: the
/// opcode, the number of the request (0, 1 or 3), and eight bytes that are
/// zero but at the last stage, where they spell the reply to the challenge.
pub open spec fn spec_auth_request(stage: AuthStage) -> Seq<u8> {
    match stage {
        AuthStage::Challenge => seq![AUTH_OPCODE, 0u8, 0u8, 0u8, 0u8, 0u8, 0u8, 0u8, 0u8, 0u8],
        AuthStage::Response(_) => seq![AUTH_OPCODE, 1u8, 0u8, 0u8, 0u8, 0u8, 0u8, 0u8, 0u8, 0u8],
        AuthStage::Status(challenge) => seq![AUTH_OPCODE, 3u8] + spec_u64_to_le(
            spec_auth_reply(challenge),
        ),
    }
}

/// The number by which the device answers the request of a stage.
pub open spec fn spec_auth_answer(stage: AuthStage) -> u8 {
    match stage {
        AuthStage::Challenge => 0,
        AuthStage::Response(_) => 2,
        AuthStage::Status(_) => 4,
    }
}

/// The error that ends the handshake when the answer at a stage is not the
/// expected one.
pub open spec fn spec_auth_error(stage: AuthStage) -> SpeedEditorError {
    match stage {
        AuthStage::Challenge => SpeedEditorError::AuthGetKbdChallengeError,
        AuthStage::Response(_) => SpeedEditorError::AuthGetKbdResponseError,
        AuthStage::Status(_) => SpeedEditorError::AuthGetKbdStatusError,
    }
}

/// Whether a control report read back is the answer that a stage expects: it
/// starts with the opcode and the number of the answer.
pub open spec fn spec_auth_accepts(stage: AuthStage, reply: Seq<u8>) -> bool {
    reply.len() >= 2 && reply[0] == AUTH_OPCODE && reply[1] == spec_auth_answer(stage)
}

/// Where the handshake stands after the control report `reply` was read back
/// at a stage: at the next stage, at its end (no stage is left), or failed
/// with the error of the stage. The challenge is bytes 2 to 9 of the first
/// answer, read as a little-endian number.
pub open spec fn spec_auth_advance(stage: AuthStage, reply: Seq<u8>) -> Result<
    Option<AuthStage>,
    SpeedEditorError,
> {
    if !spec_auth_accepts(stage, reply) {
        Err(spec_auth_error(stage))
    } else {
        match stage {
            AuthStage::Challenge => Ok(
                Some(AuthStage::Response(spec_u64_from_le(reply.subrange(2, 10)) as u64)),
            ),
            AuthStage::Response(challenge) => Ok(Some(AuthStage::Status(challenge))),
            AuthStage::Status(_) => Ok(None),
        }
    }
}

/// Turns a 64-bit value by one byte.
pub fn rol8(v: u64) -> (r: u64)
    ensures
        r == spec_rol8(v),
{
    (v << 56) | (v >> 8)
}

/// Turns a 64-bit value by one byte, `n` times over.
pub fn rol8n(v: u64, n: u64) -> (r: u64)
    ensures
        r == spec_rol8n(v, n as nat),
{
    let mut r: u64 = v;
    let mut i: u64 = 0;
    while i < n
        invariant
            i <= n,
            r == spec_rol8n(v, i as nat),
        decreases n - i,
    {
        r = rol8(r);
        i = i + 1;
    }
    r
}

/// Computes the reply that the device expects to a challenge.
pub fn auth_reply(challenge: u64) -> (reply: u64)
    ensures
        reply == spec_auth_reply(challenge),
{
    let n: u64 = challenge & 7;
    assert(challenge & 7 < 8) by (bit_vector);
    let v: u64 = rol8n(challenge, n);
    if (v & 1) == ((120u64 >> n) & 1) {
        let k: u64 = AUTH_EVEN_TBL[n as usize];
        v ^ (rol8(v) & MASK) ^ k
    } else {
        let w: u64 = v ^ rol8(v);
        let k: u64 = AUTH_ODD_TBL[n as usize];
        w ^ (rol8(w) & MASK) ^ k
    }
}

/// Builds the control report that the host sends at a stage of the handshake.
pub fn auth_request(stage: AuthStage) -> (report: [u8; 10])
    ensures
        report@ == spec_auth_request(stage),
{
    match stage {
        AuthStage::Challenge => [AUTH_OPCODE, 0, 0, 0, 0, 0, 0, 0, 0, 0],
        AuthStage::Response(_) => [AUTH_OPCODE, 1, 0, 0, 0, 0, 0, 0, 0, 0],
        AuthStage::Status(challenge) => {
            let b: [u8; 8] = u64_to_le(auth_reply(challenge));
            [AUTH_OPCODE, 3, b[0], b[1], b[2], b[3], b[4], b[5], b[6], b[7]]
        },
    }
}

/// Takes the handshake one exchange further: checks the control report that
/// was read back at a stage and says where the handshake stands then.
pub fn auth_advance(stage: AuthStage, reply: &[u8; 10]) -> (r: Result<
    Option<AuthStage>,
    SpeedEditorError,
>)
    ensures
        r == spec_auth_advance(stage, reply@),
{
    match stage {
        AuthStage::Challenge => {
            if reply[0] != AUTH_OPCODE || reply[1] != 0 {
                return Err(SpeedEditorError::AuthGetKbdChallengeError);
            }
            let challenge: u64 = u64_from_le(reply.as_slice(), 2);
            Ok(Some(AuthStage::Response(challenge)))
        },
        AuthStage::Response(challenge) => {
            if reply[0] != AUTH_OPCODE || reply[1] != 2 {
                return Err(SpeedEditorError::AuthGetKbdResponseError);
            }
            Ok(Some(AuthStage::Status(challenge)))
        },
        AuthStage::Status(_) => {
            if reply[0] != AUTH_OPCODE || reply[1] != 4 {
                return Err(SpeedEditorError::AuthGetKbdStatusError);
            }
            Ok(None)
        },
    }
}

/// Turning a value by one byte eight times over gives the value back.
pub proof fn lemma_rol8_eight_times(v: u64)
    ensures
        spec_rol8n(v, 8) == v,
{
    reveal_with_fuel(spec_rol8n, 9);
    assert(spec_rol8(spec_rol8(spec_rol8(spec_rol8(spec_rol8(spec_rol8(spec_rol8(spec_rol8(v))))))))
        == v) by (bit_vector);
}

/// Turning by `n + 8` bytes is turning by `n` bytes.
pub proof fn lemma_rol8n_period(v: u64, n: nat)
    ensures
        spec_rol8n(v, n + 8) == spec_rol8n(v, n),
    decreases n,
{
    if n == 0 {
        lemma_rol8_eight_times(v);
    } else {
        lemma_rol8n_period(v, (n - 1) as nat);
    }
}

} // verus!
