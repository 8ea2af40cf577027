use vstd::prelude::*;

pub mod speed_editor;

pub use speed_editor::auth::AuthStage;
pub use speed_editor::handler::{
    ConnectedHandler, DisconnectedHandler, Handler, JogHandler, KeyDownHandler, KeyHandler,
    KeyUpHandler, KeysHandler, UnknownHandler,
};
pub use speed_editor::key::Key;
pub use speed_editor::key_led::KeyLed;
pub use speed_editor::model::{Session, Subscribers};
pub use speed_editor::{Action, SpeedEditor, SpeedEditorError, SpeedEditorResult};

verus! {

/// Starts a session: no device, never authenticated, no key held down, no
/// light lit, no subscriber.
pub fn new<C, S, T, K, J, U>() -> (r: Result<SpeedEditor<C, S, T, K, J, U>, SpeedEditorError>) where
    C: FnMut() -> SpeedEditorResult,
    S: FnMut(Vec<Key>) -> SpeedEditorResult,
    T: FnMut(Key, bool) -> SpeedEditorResult,
    K: FnMut(Key) -> SpeedEditorResult,
    J: FnMut(u8, i32) -> SpeedEditorResult,
    U: FnMut(&[u8]) -> SpeedEditorResult,

    ensures
        r matches Ok(editor) && editor@ =~= (Session {
            connected: false,
            last_authenticated_at: None,
            auth_stage: AuthStage::Challenge,
            current_keys: Seq::empty(),
            current_key_leds: Seq::empty(),
        }) && editor.subscribers() =~= (Subscribers::<C, S, T, K, J, U> {
            connected: Seq::empty(),
            disconnected: Seq::empty(),
            keys: Seq::empty(),
            key: Seq::empty(),
            key_down: Seq::empty(),
            key_up: Seq::empty(),
            jog: Seq::empty(),
            unknown: Seq::empty(),
        }) && editor.wf(),
{
    Ok(SpeedEditor::new())
}

} // verus!
