use bmd_speededitor::speed_editor::auth::{
    auth_advance, auth_reply, auth_request, rol8, rol8n, AuthStage, AUTH_EVEN_TBL, AUTH_ODD_TBL,
};
use bmd_speededitor::speed_editor::bytes::{
    i32_from_le, u32_to_le, u64_from_le, u64_to_le,
};
use bmd_speededitor::SpeedEditorError;

#[test]
fn lib_it_works() {
    let result = 2 + 2;
    assert_eq!(result, 4);
}

#[test]
fn speed_editor_it_works() {
    let result = 2 + 2;
    assert_eq!(result, 4);
}

#[test]
fn rol8_moves_the_lowest_byte_to_the_top() {
    assert_eq!(rol8(0x0123456789abcdef), 0xef0123456789abcd);
    assert_eq!(rol8(0), 0);
    assert_eq!(rol8(u64::MAX), u64::MAX);
    assert_eq!(rol8(1), 1 << 56);
}

#[test]
fn rol8_eight_times_is_the_identity() {
    let samples: [u64; 6] = [0, 1, u64::MAX, 0x0123456789abcdef, 0x8000000000000000, 7899];
    for v in samples {
        assert_eq!(rol8n(v, 8), v);
        assert_eq!(rol8n(v, 16), v);
        assert_eq!(rol8n(v, 0), v);
        assert_eq!(rol8n(v, 3), rol8(rol8(rol8(v))));
        assert_eq!(rol8n(v, 11), rol8n(v, 3));
    }
}

#[test]
fn auth_reply_matches_known_values_in_both_branches() {
    let cases: [(u64, u64); 15] = [
        (17485029721327973432, 16777121159630413120),
        (11632994891556335705, 5990881416783289302),
        (10165027665383847897, 10176929490696723955),
        (7778961656703135618, 12370984849827416918),
        (7713914763314685786, 16231575595906320223),
        (1736392818365009963, 79595692011843200),
        (15149836622520594227, 15189254973819513230),
        (11418711589407294900, 4784693375731944320),
        (914761360679426580, 12489423616566084026),
        (16781078052021535861, 2435169937737498792),
        (10754394637803157173, 12031609509413314965),
        (1090396360377453094, 6490638113057291430),
        (7731750658069747094, 2600143176872399454),
        (10430779633273967791, 3749593267226456814),
        (7283207964119141687, 1550926361331310500),
    ];
    for (challenge, reply) in cases {
        assert_eq!(auth_reply(challenge), reply);
        assert_eq!(auth_reply(challenge), auth_reply(challenge));
    }
}

#[test]
fn auth_reply_of_the_extremes() {
    assert_eq!(auth_reply(0), AUTH_EVEN_TBL[0]);
    assert_eq!(auth_reply(0), 4242707987619187656);
    assert_eq!(auth_reply(u64::MAX), AUTH_ODD_TBL[7]);
    assert_eq!(auth_reply(0x0123456789abcdef), 16557403258496644616);
}

#[test]
fn little_endian_bytes() {
    assert_eq!(u64_to_le(0x0102030405060708), [8, 7, 6, 5, 4, 3, 2, 1]);
    assert_eq!(u64_to_le(0), [0; 8]);
    assert_eq!(u64_to_le(u64::MAX), [255; 8]);
    assert_eq!(u32_to_le(0x01020304), [4, 3, 2, 1]);
    assert_eq!(u32_to_le(3), [3, 0, 0, 0]);
    assert_eq!(u64_from_le(&[8, 7, 6, 5, 4, 3, 2, 1], 0), 0x0102030405060708);
    assert_eq!(u64_from_le(&[9, 9, 8, 7, 6, 5, 4, 3, 2, 1], 2), 0x0102030405060708);
    assert_eq!(u64_from_le(&[255; 8], 0), u64::MAX);
    assert_eq!(i32_from_le(&[0xd0, 0x02, 0, 0], 0), 720);
    assert_eq!(i32_from_le(&[255, 255, 255, 255], 0), -1);
    assert_eq!(i32_from_le(&[0, 0, 0, 0x80], 0), i32::MIN);
    assert_eq!(i32_from_le(&[255, 255, 255, 0x7f], 0), i32::MAX);
    assert_eq!(i32_from_le(&[1, 0x30, 0xfd, 255, 255], 1), -720);
    for v in [0u64, 1, 255, 256, 0xdeadbeef, u64::MAX, 0x8000000000000001] {
        assert_eq!(u64_from_le(&u64_to_le(v), 0), v);
        assert_eq!(u64_to_le(v), v.to_le_bytes());
    }
    for v in [0u32, 1, 255, 256, 0xdeadbeef, u32::MAX, 1 << 17] {
        assert_eq!(u32_to_le(v), v.to_le_bytes());
    }
}

#[test]
fn auth_requests_by_stage() {
    assert_eq!(auth_request(AuthStage::Challenge), [6, 0, 0, 0, 0, 0, 0, 0, 0, 0]);
    assert_eq!(auth_request(AuthStage::Response(77)), [6, 1, 0, 0, 0, 0, 0, 0, 0, 0]);
    assert_eq!(
        auth_request(AuthStage::Status(0x1122334455667788)),
        [6, 3, 48, 30, 246, 198, 26, 49, 211, 171]
    );
    let reply = auth_reply(915).to_le_bytes();
    let request = auth_request(AuthStage::Status(915));
    assert_eq!(&request[2..], &reply[..]);
}

#[test]
fn auth_advance_through_the_stages() {
    let challenge: [u8; 10] = [6, 0, 0x88, 0x77, 0x66, 0x55, 0x44, 0x33, 0x22, 0x11];
    assert_eq!(
        auth_advance(AuthStage::Challenge, &challenge),
        Ok(Some(AuthStage::Response(0x1122334455667788)))
    );
    assert_eq!(
        auth_advance(AuthStage::Response(5), &[6, 2, 0, 0, 0, 0, 0, 0, 0, 0]),
        Ok(Some(AuthStage::Status(5)))
    );
    assert_eq!(auth_advance(AuthStage::Status(5), &[6, 4, 1, 2, 3, 4, 5, 6, 7, 8]), Ok(None));
}

#[test]
fn auth_advance_names_the_stage_that_failed() {
    assert_eq!(
        auth_advance(AuthStage::Challenge, &[6, 1, 0, 0, 0, 0, 0, 0, 0, 0]),
        Err(SpeedEditorError::AuthGetKbdChallengeError)
    );
    assert_eq!(
        auth_advance(AuthStage::Challenge, &[5, 0, 0, 0, 0, 0, 0, 0, 0, 0]),
        Err(SpeedEditorError::AuthGetKbdChallengeError)
    );
    assert_eq!(
        auth_advance(AuthStage::Response(1), &[6, 0, 0, 0, 0, 0, 0, 0, 0, 0]),
        Err(SpeedEditorError::AuthGetKbdResponseError)
    );
    assert_eq!(
        auth_advance(AuthStage::Response(1), &[0, 2, 0, 0, 0, 0, 0, 0, 0, 0]),
        Err(SpeedEditorError::AuthGetKbdResponseError)
    );
    assert_eq!(
        auth_advance(AuthStage::Status(1), &[6, 3, 0, 0, 0, 0, 0, 0, 0, 0]),
        Err(SpeedEditorError::AuthGetKbdStatusError)
    );
    assert_eq!(
        auth_advance(AuthStage::Status(1), &[7, 4, 0, 0, 0, 0, 0, 0, 0, 0]),
        Err(SpeedEditorError::AuthGetKbdStatusError)
    );
}
