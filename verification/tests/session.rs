use bmd_speededitor::speed_editor::auth::auth_reply;
use bmd_speededitor::speed_editor::{
    AUTH_INTERVAL, PID, READ_TIMEOUT, RECONNECT_INTERVAL, VID,
};
use bmd_speededitor::{
    Action, AuthStage, Handler, Key, KeyHandler, KeyLed, SpeedEditor, SpeedEditorError,
    SpeedEditorResult,
};
use std::cell::RefCell;
use std::rc::Rc;

type OnLink = Box<dyn FnMut() -> SpeedEditorResult>;
type OnKeys = Box<dyn FnMut(Vec<Key>) -> SpeedEditorResult>;
type OnKey = Box<dyn FnMut(Key, bool) -> SpeedEditorResult>;
type OnKeyEdge = Box<dyn FnMut(Key) -> SpeedEditorResult>;
type OnJog = Box<dyn FnMut(u8, i32) -> SpeedEditorResult>;
type OnUnknown = Box<dyn FnMut(&[u8]) -> SpeedEditorResult>;
type Editor = SpeedEditor<OnLink, OnKeys, OnKey, OnKeyEdge, OnJog, OnUnknown>;
type Log = Rc<RefCell<Vec<String>>>;

fn editor() -> Editor {
    bmd_speededitor::new().unwrap()
}

/// An editor whose every event is written to a log, in the order of delivery.
fn logged() -> (Editor, Log) {
    let log: Log = Rc::new(RefCell::new(Vec::new()));
    let mut se = editor();
    let l = log.clone();
    se.on_connected(Box::new(move || {
        l.borrow_mut().push("connected".to_string());
        Ok(())
    }));
    let l = log.clone();
    se.on_disconnected(Box::new(move || {
        l.borrow_mut().push("disconnected".to_string());
        Ok(())
    }));
    let l = log.clone();
    se.on_keys(Box::new(move |keys| {
        l.borrow_mut().push(format!("keys {:?}", keys));
        Ok(())
    }));
    let l = log.clone();
    se.on_key(Box::new(move |key, down| {
        l.borrow_mut().push(format!("key {:?} {}", key, down));
        Ok(())
    }));
    let l = log.clone();
    se.on_key_down(Box::new(move |key| {
        l.borrow_mut().push(format!("down {:?}", key));
        Ok(())
    }));
    let l = log.clone();
    se.on_key_up(Box::new(move |key| {
        l.borrow_mut().push(format!("up {:?}", key));
        Ok(())
    }));
    let l = log.clone();
    se.on_jog(Box::new(move |mode, value| {
        l.borrow_mut().push(format!("jog {} {}", mode, value));
        Ok(())
    }));
    let l = log.clone();
    se.on_unknown(Box::new(move |data: &[u8]| {
        l.borrow_mut().push(format!("unknown {:?}", data));
        Ok(())
    }));
    (se, log)
}

fn taken(log: &Log) -> Vec<String> {
    log.borrow_mut().drain(..).collect()
}

#[test]
fn a_new_session_is_empty() {
    let se = editor();
    assert!(!se.connected);
    assert_eq!(se.last_authenticated_at, None);
    assert_eq!(se.auth_stage, AuthStage::Challenge);
    assert!(se.current_keys.is_empty());
    assert!(se.current_key_leds.is_empty());
    assert!(se.connected_handler.callbacks.is_empty());
    assert!(se.disconnected_handler.callbacks.is_empty());
    assert!(se.keys_handler.callbacks.is_empty());
    assert!(se.key_handler.callbacks.is_empty());
    assert!(se.key_down_handler.callbacks.is_empty());
    assert!(se.key_up_handler.callbacks.is_empty());
    assert!(se.jog_handler.callbacks.is_empty());
    assert!(se.unknown_handler.callbacks.is_empty());
    let direct: Editor = SpeedEditor::new();
    assert!(!direct.connected);
}

#[test]
fn constants_of_the_device() {
    assert_eq!(VID, 7899);
    assert_eq!(PID, 55822);
    assert_eq!(READ_TIMEOUT, 1000);
    assert_eq!(RECONNECT_INTERVAL, 100);
    assert_eq!(AUTH_INTERVAL, 30000);
}

#[test]
fn key_set_diffing_tells_down_then_up_then_snapshot() {
    let (mut se, log) = logged();
    // A, B, C held down
    assert_eq!(se.key_event(&[4, 0, 15, 0, 16, 0]), Ok(()));
    assert_eq!(se.current_keys, vec![Key::CloseUp, Key::Cut, Key::Dis]);
    assert_eq!(
        taken(&log),
        vec![
            "key CloseUp true",
            "down CloseUp",
            "key Cut true",
            "down Cut",
            "key Dis true",
            "down Dis",
            "keys [CloseUp, Cut, Dis]",
        ]
    );
    // B, C, D held down
    assert_eq!(se.key_event(&[15, 0, 16, 0, 51, 0]), Ok(()));
    assert_eq!(se.current_keys, vec![Key::Cut, Key::Dis, Key::Cam1]);
    assert_eq!(
        taken(&log),
        vec!["key Cam1 true", "down Cam1", "key CloseUp false", "up CloseUp", "keys [Cut, Dis, Cam1]"]
    );
    // all released
    assert_eq!(se.key_event(&[0, 0, 0, 0, 0, 0]), Ok(()));
    assert!(se.current_keys.is_empty());
    assert_eq!(
        taken(&log),
        vec!["key Cut false", "up Cut", "key Dis false", "up Dis", "key Cam1 false", "up Cam1", "keys []"]
    );
}

#[test]
fn the_same_keys_report_twice_tells_nothing_the_second_time() {
    let (mut se, log) = logged();
    assert_eq!(se.key_event(&[7, 0, 8, 0]), Ok(()));
    assert_eq!(taken(&log).len(), 5);
    assert_eq!(se.key_event(&[7, 0, 8, 0]), Ok(()));
    assert_eq!(taken(&log), Vec::<String>::new());
    assert_eq!(se.current_keys, vec![Key::In, Key::Out]);
    // the same keys in other slots are the same keys
    assert_eq!(se.key_event(&[0, 0, 7, 0, 0, 9, 8]), Ok(()));
    assert_eq!(taken(&log), Vec::<String>::new());
    // the same keys in another order are a change, with nothing down or up
    assert_eq!(se.key_event(&[8, 0, 7, 0]), Ok(()));
    assert_eq!(taken(&log), vec!["keys [Out, In]"]);
    // an empty report on an empty session tells nothing
    let (mut fresh, log) = logged();
    assert_eq!(fresh.key_event(&[0, 0, 0, 0]), Ok(()));
    assert_eq!(fresh.key_event(&[]), Ok(()));
    assert_eq!(taken(&log), Vec::<String>::new());
}

#[test]
fn a_keys_report_with_an_unknown_code_changes_nothing() {
    let (mut se, log) = logged();
    assert_eq!(se.key_event(&[7, 0]), Ok(()));
    taken(&log);
    assert_eq!(se.key_event(&[8, 0, 200, 0]), Err(SpeedEditorError::KeyDecodeError(200)));
    assert_eq!(se.current_keys, vec![Key::In]);
    assert_eq!(taken(&log), Vec::<String>::new());
}

#[test]
fn jog_event_tells_mode_and_value() {
    let (mut se, log) = logged();
    assert_eq!(se.jog_event(1, &720i32.to_le_bytes()), Ok(()));
    assert_eq!(se.jog_event(2, &359i32.to_le_bytes()), Ok(()));
    assert_eq!(se.jog_event(0, &(-1080i32).to_le_bytes()), Ok(()));
    assert_eq!(taken(&log), vec!["jog 1 2", "jog 2 0", "jog 0 -3"]);
    assert_eq!(se.jog_event(0, &[1, 2, 3]), Err(SpeedEditorError::StdIoError));
    assert_eq!(taken(&log), Vec::<String>::new());
}

#[test]
fn process_events_goes_by_the_kind_of_report() {
    let (mut se, log) = logged();
    assert_eq!(se.process_events(&[3, 5, 0xd0, 0x02, 0, 0]), Ok(()));
    assert_eq!(taken(&log), vec!["jog 5 2"]);
    assert_eq!(se.process_events(&[3, 5, 0, 0, 0, 0]), Ok(()));
    assert_eq!(taken(&log), vec!["jog 5 0"]);
    assert_eq!(se.process_events(&[4, 4, 0, 0, 0, 0, 0, 0, 0, 0, 0, 0, 0]), Ok(()));
    assert_eq!(taken(&log), vec!["key CloseUp true", "down CloseUp", "keys [CloseUp]"]);
    assert_eq!(se.current_keys, vec![Key::CloseUp]);
    assert_eq!(se.process_events(&[9, 1, 2]), Ok(()));
    assert_eq!(taken(&log), vec!["unknown [9, 1, 2]"]);
    assert_eq!(se.process_events(&[0]), Ok(()));
    assert_eq!(taken(&log), vec!["unknown [0]"]);
}

#[test]
fn an_unreadable_report_is_told_as_unknown() {
    let (mut se, log) = logged();
    assert_eq!(se.process_events(&[4, 4, 0]), Ok(()));
    taken(&log);
    // a keys report with a code that names no key
    assert_eq!(se.process_events(&[4, 15, 0, 99, 0]), Ok(()));
    assert_eq!(taken(&log), vec!["unknown [4, 15, 0, 99, 0]"]);
    assert_eq!(se.current_keys, vec![Key::CloseUp]);
    // a jog report that is too short
    assert_eq!(se.process_events(&[3, 1, 2, 3, 4]), Ok(()));
    assert_eq!(taken(&log), vec!["unknown [3, 1, 2, 3, 4]"]);
    assert_eq!(se.process_events(&[3]), Ok(()));
    assert_eq!(taken(&log), vec!["unknown [3]"]);
    // a keys report without payload holds no key
    assert_eq!(se.process_events(&[4]), Ok(()));
    assert_eq!(taken(&log), vec!["key CloseUp false", "up CloseUp", "keys []"]);
}

#[test]
fn subscribers_are_called_in_order_and_the_first_failure_ends_the_delivery() {
    let log: Log = Rc::new(RefCell::new(Vec::new()));
    let mut se = editor();
    let l = log.clone();
    se.on_key_down(Box::new(move |key| {
        l.borrow_mut().push(format!("first {:?}", key));
        Ok(())
    }));
    let l = log.clone();
    se.on_key_down(Box::new(move |key| {
        l.borrow_mut().push(format!("second {:?}", key));
        if key == Key::Cut {
            Err(SpeedEditorError::CallbackExecutionError)
        } else {
            Ok(())
        }
    }));
    let l = log.clone();
    se.on_key_down(Box::new(move |key| {
        l.borrow_mut().push(format!("third {:?}", key));
        Ok(())
    }));
    let l = log.clone();
    se.on_keys(Box::new(move |keys| {
        l.borrow_mut().push(format!("keys {:?}", keys));
        Ok(())
    }));
    assert_eq!(se.key_event(&[4, 0]), Ok(()));
    assert_eq!(taken(&log), vec!["first CloseUp", "second CloseUp", "third CloseUp", "keys [CloseUp]"]);
    assert_eq!(
        se.key_event(&[4, 0, 16, 0, 15, 0, 51, 0]),
        Err(SpeedEditorError::CallbackExecutionError)
    );
    assert_eq!(taken(&log), vec!["first Dis", "second Dis", "third Dis", "first Cut", "second Cut"]);
    // the keys were taken in before anybody was told
    assert_eq!(se.current_keys, vec![Key::CloseUp, Key::Dis, Key::Cut, Key::Cam1]);
}

#[test]
fn a_handler_alone_delivers_in_order() {
    let log: Log = Rc::new(RefCell::new(Vec::new()));
    let mut handler: KeyHandler<OnKey> = KeyHandler::new();
    assert_eq!(handler.call(Key::In, true), Ok(()));
    let l = log.clone();
    handler.push(Box::new(move |key, down| {
        l.borrow_mut().push(format!("a {:?} {}", key, down));
        Ok(())
    }));
    let l = log.clone();
    handler.push(Box::new(move |key, down| {
        l.borrow_mut().push(format!("b {:?} {}", key, down));
        if down {
            Ok(())
        } else {
            Err(SpeedEditorError::HidApiError)
        }
    }));
    let l = log.clone();
    handler.push(Box::new(move |key, down| {
        l.borrow_mut().push(format!("c {:?} {}", key, down));
        Err(SpeedEditorError::CallbackExecutionError)
    }));
    assert_eq!(handler.call(Key::In, true), Err(SpeedEditorError::CallbackExecutionError));
    assert_eq!(taken(&log), vec!["a In true", "b In true", "c In true"]);
    assert_eq!(handler.call(Key::Out, false), Err(SpeedEditorError::HidApiError));
    assert_eq!(taken(&log), vec!["a Out false", "b Out false"]);
    assert_eq!(handler.callbacks.len(), 3);
}

#[test]
fn a_subscriber_may_keep_state() {
    let mut se = editor();
    let count = Rc::new(RefCell::new(0));
    let seen = count.clone();
    let mut calls = 0;
    se.on_jog(Box::new(move |_, value| {
        calls += 1;
        *seen.borrow_mut() += value * calls;
        Ok(())
    }));
    assert_eq!(se.jog_event(0, &360i32.to_le_bytes()), Ok(()));
    assert_eq!(se.jog_event(0, &360i32.to_le_bytes()), Ok(()));
    assert_eq!(*count.borrow(), 3);
}

#[test]
fn leds_on_then_off_leave_the_bit_of_the_light_that_stays() {
    let mut se = editor();
    assert_eq!(se.connect(true), Ok(None));
    assert_eq!(
        se.set_leds(vec![KeyLed::CloseUp, KeyLed::Cut], true),
        Some([2, 3, 0, 0, 0, 0])
    );
    assert_eq!(se.current_key_leds, vec![KeyLed::CloseUp, KeyLed::Cut]);
    let report = se.set_leds(vec![KeyLed::Cut], false).unwrap();
    assert_eq!(report, [2, 1, 0, 0, 0, 0]);
    let mask = u32::from_le_bytes([report[1], report[2], report[3], report[4]]);
    assert_eq!(mask, 1 << KeyLed::CloseUp.bit());
    assert_eq!(se.current_key_leds, vec![KeyLed::CloseUp]);
    assert_eq!(se.light_key_leds(), Some([2, 1, 0, 0, 0, 0]));
}

#[test]
fn single_leds() {
    let mut se = editor();
    se.connect(true).unwrap();
    assert_eq!(se.set_key_led(KeyLed::Cam1, true), Some([2, 0, 0x40, 0, 0, 0]));
    assert_eq!(se.set_key_led(KeyLed::AudioOnly, true), Some([2, 0, 0x40, 0x02, 0, 0]));
    assert_eq!(se.current_key_leds, vec![KeyLed::Cam1, KeyLed::AudioOnly]);
    assert_eq!(se.set_key_led(KeyLed::Cam1, false), Some([2, 0, 0, 0x02, 0, 0]));
    assert_eq!(se.current_key_leds, vec![KeyLed::AudioOnly]);
    // a light that is not lit is switched off to no effect
    assert_eq!(se.set_key_led(KeyLed::Cut, false), Some([2, 0, 0, 0x02, 0, 0]));
    assert_eq!(se.current_key_leds, vec![KeyLed::AudioOnly]);
    se.add_key_led(KeyLed::Cut);
    se.add_key_led(KeyLed::Dis);
    se.remove_key_led(KeyLed::AudioOnly);
    assert_eq!(se.current_key_leds, vec![KeyLed::Cut, KeyLed::Dis]);
    assert_eq!(se.light_key_leds(), Some([2, 6, 0, 0, 0, 0]));
}

#[test]
fn a_light_is_lit_once() {
    let mut se = editor();
    se.connect(true).unwrap();
    let first = se.set_key_led(KeyLed::Cam1, true);
    assert_eq!(first, Some([2, 0, 0x40, 0, 0, 0]));
    // switched on again: the same report, and the light is held once
    assert_eq!(se.set_key_led(KeyLed::Cam1, true), first);
    assert_eq!(se.current_key_leds, vec![KeyLed::Cam1]);
    se.add_key_led(KeyLed::Cam1);
    assert_eq!(se.current_key_leds, vec![KeyLed::Cam1]);
    assert_eq!(
        se.set_leds(vec![KeyLed::Cut, KeyLed::Cam1, KeyLed::Cut, KeyLed::Dis], true),
        Some([2, 6, 0x40, 0, 0, 0])
    );
    assert_eq!(se.current_key_leds, vec![KeyLed::Cam1, KeyLed::Cut, KeyLed::Dis]);
    assert_eq!(se.set_leds(vec![KeyLed::Cut, KeyLed::Cut, KeyLed::Snap], false), Some([2, 4, 0x40, 0, 0, 0]));
    assert_eq!(se.current_key_leds, vec![KeyLed::Cam1, KeyLed::Dis]);
}

#[test]
fn all_leds() {
    let mut se = editor();
    se.connect(true).unwrap();
    se.add_key_led(KeyLed::Snap);
    assert_eq!(se.set_all_key_leds(true), Some([2, 0xff, 0xff, 0x03, 0, 0]));
    // the light that was lit keeps its place; the others follow by position
    assert_eq!(se.current_key_leds.len(), 18);
    assert_eq!(se.current_key_leds[0], KeyLed::Snap);
    let others: Vec<KeyLed> = KeyLed::all().into_iter().filter(|l| *l != KeyLed::Snap).collect();
    assert_eq!(&se.current_key_leds[1..], &others[..]);
    assert_eq!(se.set_all_key_leds(true), Some([2, 0xff, 0xff, 0x03, 0, 0]));
    assert_eq!(se.current_key_leds.len(), 18);
    assert_eq!(se.set_all_key_leds(false), Some([2, 0, 0, 0, 0, 0]));
    assert!(se.current_key_leds.is_empty());
    assert_eq!(se.set_all_key_leds(false), Some([2, 0, 0, 0, 0, 0]));
}

#[test]
fn a_failed_write_is_a_lost_device() {
    let (mut se, log) = logged();
    se.connect(true).unwrap();
    se.last_authenticated_at = Some(5);
    taken(&log);
    assert_eq!(se.set_key_led(KeyLed::Cut, true), Some([2, 2, 0, 0, 0, 0]));
    assert_eq!(se.light_written(true), Ok(()));
    assert!(se.connected);
    assert_eq!(se.last_authenticated_at, Some(5));
    assert_eq!(taken(&log), Vec::<String>::new());
    assert_eq!(se.light_written(false), Ok(()));
    assert_eq!(taken(&log), vec!["disconnected"]);
    assert!(!se.connected);
    assert_eq!(se.last_authenticated_at, None);
    // the lights are kept
    assert_eq!(se.current_key_leds, vec![KeyLed::Cut]);
    assert_eq!(se.light_key_leds(), None);
}

#[test]
fn a_failed_open_changes_nothing() {
    let (mut se, log) = logged();
    se.add_key_led(KeyLed::Cut);
    assert_eq!(se.connect(false), Ok(Some(100)));
    assert!(!se.connected);
    assert_eq!(se.current_key_leds, vec![KeyLed::Cut]);
    se.connect(true).unwrap();
    se.auth_at(Some(&[6, 0, 7, 0, 0, 0, 0, 0, 0, 0]), 1).unwrap();
    taken(&log);
    assert_eq!(se.connect(false), Ok(Some(100)));
    assert!(se.connected);
    assert_eq!(se.auth_stage, AuthStage::Response(7));
    assert_eq!(taken(&log), Vec::<String>::new());
}

#[test]
fn without_a_device_there_is_no_handshake() {
    let mut se = editor();
    assert_eq!(se.auth_at(Some(&[6, 0, 7, 0, 0, 0, 0, 0, 0, 0]), 9), Ok(()));
    assert_eq!(se.auth_at(Some(&[6, 9, 7, 0, 0, 0, 0, 0, 0, 0]), 9), Ok(()));
    assert_eq!(se.auth(Some(&[6, 4, 0, 0, 0, 0, 0, 0, 0, 0])), Ok(()));
    assert!(!se.connected);
    assert_eq!(se.auth_stage, AuthStage::Challenge);
    assert_eq!(se.last_authenticated_at, None);
    assert_eq!(se.run(), Action::Open { vid: VID, pid: PID });
}

#[test]
fn leds_without_a_device_are_kept_and_not_sent() {
    let mut se = editor();
    assert_eq!(se.set_key_led(KeyLed::Cut, true), None);
    assert_eq!(se.set_leds(vec![KeyLed::Dis, KeyLed::Trans], true), None);
    assert_eq!(se.light_key_leds(), None);
    assert_eq!(se.set_all_key_leds(false), None);
    assert!(se.current_key_leds.is_empty());
    assert_eq!(se.set_leds(vec![KeyLed::Dis, KeyLed::Trans], true), None);
    assert_eq!(se.current_key_leds, vec![KeyLed::Dis, KeyLed::Trans]);
    // nothing is sent on connection either: the host asks for the report
    assert_eq!(se.connect(true), Ok(None));
    assert_eq!(se.current_key_leds, vec![KeyLed::Dis, KeyLed::Trans]);
    assert_eq!(se.light_key_leds(), Some([2, 0x14, 0, 0, 0, 0]));
}

#[test]
fn an_absent_device_is_asked_for_again_after_the_backoff() {
    let (mut se, log) = logged();
    let open = Action::Open { vid: 7899, pid: 55822 };
    for _ in 0..5 {
        assert_eq!(se.run(), open);
        assert_eq!(se.handle_loop(0), open);
        assert_eq!(se.handle_loop(i64::MAX), open);
        assert_eq!(se.auth_or_reconnect(), open);
        assert_eq!(se.connect(false), Ok(Some(100)));
        assert!(!se.connected);
        assert_eq!(se.last_authenticated_at, None);
        assert_eq!(se.auth_stage, AuthStage::Challenge);
    }
    assert_eq!(taken(&log), Vec::<String>::new());
}

#[test]
fn a_new_device_is_authenticated_before_it_is_read() {
    let (mut se, log) = logged();
    assert_eq!(se.run(), Action::Open { vid: VID, pid: PID });
    assert_eq!(se.connect(true), Ok(None));
    assert_eq!(taken(&log), vec!["connected"]);
    assert!(se.connected);

    // the request for a challenge
    assert_eq!(se.run(), Action::Exchange([6, 0, 0, 0, 0, 0, 0, 0, 0, 0]));
    let challenge: u64 = 0x1122334455667788;
    let mut answer = [6u8, 0, 0, 0, 0, 0, 0, 0, 0, 0];
    answer[2..].copy_from_slice(&challenge.to_le_bytes());
    assert_eq!(se.auth(Some(&answer)), Ok(()));
    assert_eq!(se.auth_stage, AuthStage::Response(challenge));
    assert_eq!(se.last_authenticated_at, None);

    // the announcement of the response
    assert_eq!(se.run(), Action::Exchange([6, 1, 0, 0, 0, 0, 0, 0, 0, 0]));
    assert_eq!(se.auth(Some(&[6, 2, 0, 0, 0, 0, 0, 0, 0, 0])), Ok(()));
    assert_eq!(se.auth_stage, AuthStage::Status(challenge));
    assert_eq!(se.last_authenticated_at, None);

    // the response
    let mut response = [6u8, 3, 0, 0, 0, 0, 0, 0, 0, 0];
    response[2..].copy_from_slice(&auth_reply(challenge).to_le_bytes());
    assert_eq!(se.run(), Action::Exchange(response));
    assert_eq!(se.run(), Action::Exchange([6, 3, 48, 30, 246, 198, 26, 49, 211, 171]));
    assert_eq!(se.auth(Some(&[6, 4, 0x58, 0x02, 0, 0, 0, 0, 0, 0])), Ok(()));
    assert_eq!(se.auth_stage, AuthStage::Challenge);
    assert!(se.last_authenticated_at.is_some());

    // only now the device is read
    assert_eq!(se.run(), Action::Read { timeout: 1000 });
    assert_eq!(taken(&log), Vec::<String>::new());
}

#[test]
fn the_clock_stamps_the_authentication() {
    let mut se = editor();
    se.connect(true).unwrap();
    se.auth_stage = AuthStage::Status(1);
    assert_eq!(se.auth(Some(&[6, 4, 0, 0, 0, 0, 0, 0, 0, 0])), Ok(()));
    let at = se.last_authenticated_at.unwrap();
    // later than the start of 2020, and no later than a second call
    assert!(at > 1_577_836_800_000);
    se.auth_stage = AuthStage::Status(1);
    assert_eq!(se.auth(Some(&[6, 4, 0, 0, 0, 0, 0, 0, 0, 0])), Ok(()));
    assert!(se.last_authenticated_at.unwrap() >= at);
    assert_eq!(se.handle_loop(at), Action::Read { timeout: 1000 });
}

#[test]
fn an_authentication_lapses_after_the_interval() {
    let mut se = editor();
    se.connect(true).unwrap();
    assert_eq!(se.auth_at(Some(&[6, 0, 1, 0, 0, 0, 0, 0, 0, 0]), 5), Ok(()));
    assert_eq!(se.auth_at(Some(&[6, 2, 0, 0, 0, 0, 0, 0, 0, 0]), 6), Ok(()));
    assert_eq!(se.handle_loop(7), Action::Exchange({
        let mut r = [6u8, 3, 0, 0, 0, 0, 0, 0, 0, 0];
        r[2..].copy_from_slice(&auth_reply(1).to_le_bytes());
        r
    }));
    assert_eq!(se.auth_at(Some(&[6, 4, 0, 0, 0, 0, 0, 0, 0, 0]), 1000), Ok(()));
    assert_eq!(se.last_authenticated_at, Some(1000));
    let read = Action::Read { timeout: READ_TIMEOUT };
    let again = Action::Exchange([6, 0, 0, 0, 0, 0, 0, 0, 0, 0]);
    assert_eq!(se.handle_loop(1000), read);
    assert_eq!(se.handle_loop(30999), read);
    // at the interval exactly the authentication still holds
    assert_eq!(se.handle_loop(31000), read);
    assert_eq!(se.handle_loop(31001), again);
    assert_eq!(se.handle_loop(i64::MAX), again);
    // a clock that went back does not make the authentication lapse
    assert_eq!(se.handle_loop(0), read);
    assert_eq!(se.handle_loop(i64::MIN), read);
    se.last_authenticated_at = Some(i64::MIN);
    assert_eq!(se.handle_loop(i64::MAX), again);
    se.last_authenticated_at = Some(i64::MAX);
    assert_eq!(se.handle_loop(i64::MIN), read);
}

#[test]
fn a_failed_handshake_keeps_the_device_and_starts_anew() {
    let (mut se, log) = logged();
    se.connect(true).unwrap();
    taken(&log);
    assert_eq!(
        se.auth_at(Some(&[6, 9, 0, 0, 0, 0, 0, 0, 0, 0]), 1),
        Err(SpeedEditorError::AuthGetKbdChallengeError)
    );
    assert!(se.connected);
    assert_eq!(se.auth_stage, AuthStage::Challenge);

    assert_eq!(se.auth_at(Some(&[6, 0, 7, 0, 0, 0, 0, 0, 0, 0]), 1), Ok(()));
    assert_eq!(
        se.auth_at(Some(&[6, 0, 0, 0, 0, 0, 0, 0, 0, 0]), 1),
        Err(SpeedEditorError::AuthGetKbdResponseError)
    );
    assert!(se.connected);
    assert_eq!(se.auth_stage, AuthStage::Challenge);
    assert_eq!(se.handle_loop(2), Action::Exchange([6, 0, 0, 0, 0, 0, 0, 0, 0, 0]));

    assert_eq!(se.auth_at(Some(&[6, 0, 7, 0, 0, 0, 0, 0, 0, 0]), 1), Ok(()));
    assert_eq!(se.auth_at(Some(&[6, 2, 0, 0, 0, 0, 0, 0, 0, 0]), 1), Ok(()));
    assert_eq!(
        se.auth_at(Some(&[6, 2, 0, 0, 0, 0, 0, 0, 0, 0]), 1),
        Err(SpeedEditorError::AuthGetKbdStatusError)
    );
    assert!(se.connected);
    assert_eq!(se.last_authenticated_at, None);
    assert_eq!(se.auth_stage, AuthStage::Challenge);
    assert_eq!(taken(&log), Vec::<String>::new());
}

#[test]
fn a_failed_transport_is_a_lost_device() {
    let (mut se, log) = logged();
    se.connect(true).unwrap();
    se.auth_at(Some(&[6, 0, 7, 0, 0, 0, 0, 0, 0, 0]), 1).unwrap();
    taken(&log);
    assert_eq!(se.auth(None), Ok(()));
    assert_eq!(taken(&log), vec!["disconnected"]);
    assert!(!se.connected);
    assert_eq!(se.auth_stage, AuthStage::Challenge);
    assert_eq!(se.run(), Action::Open { vid: VID, pid: PID });

    se.connect(true).unwrap();
    se.last_authenticated_at = Some(50);
    taken(&log);
    assert_eq!(se.handle_loop(60), Action::Read { timeout: 1000 });
    assert_eq!(se.handle_read(None), Ok(()));
    assert_eq!(taken(&log), vec!["disconnected"]);
    assert!(!se.connected);
    assert_eq!(se.last_authenticated_at, None);

    // after the next connection the handshake comes first again
    assert_eq!(se.connect(true), Ok(None));
    assert_eq!(se.handle_loop(61), Action::Exchange([6, 0, 0, 0, 0, 0, 0, 0, 0, 0]));
}

#[test]
fn reads_are_taken_in() {
    let (mut se, log) = logged();
    se.connect(true).unwrap();
    taken(&log);
    // a read that timed out
    assert_eq!(se.handle_read(Some(&[])), Ok(()));
    assert_eq!(taken(&log), Vec::<String>::new());
    assert_eq!(se.handle_read(Some(&[4, 60, 0])), Ok(()));
    assert_eq!(taken(&log), vec!["key StopPlay true", "down StopPlay", "keys [StopPlay]"]);
    assert_eq!(se.handle_read(Some(&[3, 0, 0x98, 0xfd, 0xff, 0xff])), Ok(()));
    assert_eq!(taken(&log), vec!["jog 0 -1"]);
    assert_eq!(se.handle_read(Some(&[1])), Ok(()));
    assert_eq!(taken(&log), vec!["unknown [1]"]);
    assert!(se.connected);
}

#[test]
fn a_failing_subscriber_fails_the_operation() {
    let mut se = editor();
    se.on_connected(Box::new(|| Err(SpeedEditorError::CallbackExecutionError)));
    se.on_disconnected(Box::new(|| Err(SpeedEditorError::HidApiError)));
    se.on_unknown(Box::new(|data: &[u8]| {
        if data.len() > 1 {
            Err(SpeedEditorError::StdIoError)
        } else {
            Ok(())
        }
    }));
    assert_eq!(se.connect(true), Err(SpeedEditorError::CallbackExecutionError));
    assert!(se.connected);
    assert_eq!(se.unknown_event(&[0]), Ok(()));
    assert_eq!(se.unknown_event(&[0, 1]), Err(SpeedEditorError::StdIoError));
    assert_eq!(se.disconnect(), Err(SpeedEditorError::HidApiError));
    assert!(!se.connected);
    assert_eq!(se.connect(false), Ok(Some(RECONNECT_INTERVAL)));
}
