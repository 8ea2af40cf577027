use vstd::prelude::*;
use super::key::Key;
use super::SpeedEditorResult;

verus! {

/// A list of subscribers to one class of events.
pub trait Handler: Sized {
    /// The number of subscribers.
    spec fn subscribers(&self) -> nat;

    /// A handler without subscribers.
    fn new() -> (handler: Self)
        ensures
            handler.subscribers() == 0,
    ;
}

/// Copies a list of keys.
pub fn clone_keys(keys: &Vec<Key>) -> (copy: Vec<Key>)
    ensures
        copy@ == keys@,
{
    let mut copy: Vec<Key> = Vec::new();
    let mut i: usize = 0;
    while i < keys.len()
        invariant
            i <= keys@.len(),
            copy@ == keys@.take(i as int),
        decreases keys@.len() - i,
    {
        copy.push(keys[i]);
        i = i + 1;
    }
    copy
}

/// The subscribers to the news that a device was connected, in the order in
/// which they subscribed.
pub struct ConnectedHandler<F> {
    pub callbacks: Vec<F>,
}

impl<F: FnMut() -> SpeedEditorResult> ConnectedHandler<F> {
    /// Every subscriber of a list may be called, whatever the event holds.
    pub open spec fn callable(callbacks: Seq<F>) -> bool {
        forall|i: int|
            0 <= i < callbacks.len() ==> #[trigger] call_requires(callbacks[i], ())
    }

    /// Subscriber `i` of a list, called with the event, may return `r`.
    pub open spec fn answers(callbacks: Seq<F>, i: int, r: SpeedEditorResult) -> bool {
        call_ensures(callbacks[i], (), r)
    }

    /// What a delivery of the event to a list of subscribers may return: `Ok`
    /// where every subscriber returns `Ok`; an error where some subscriber
    /// returns it and those before it in the list return `Ok`.
    pub open spec fn delivered(callbacks: Seq<F>, r: SpeedEditorResult) -> bool {
        match r {
            Ok(()) => forall|i: int|
                0 <= i < callbacks.len() ==> #[trigger] Self::answers(callbacks, i, r),
            Err(_) => exists|i: int|
                {
                    &&& 0 <= i < callbacks.len()
                    &&& #[trigger] Self::answers(callbacks, i, r)
                    &&& forall|j: int|
                        0 <= j < i ==> #[trigger] Self::answers(callbacks, j, Ok(()))
                },
        }
    }

    /// Every subscriber may be called, whatever the event holds.
    pub open spec fn wf(&self) -> bool {
        Self::callable(self.callbacks@)
    }

    /// Adds a subscriber behind those that are there.
    pub fn push(&mut self, callback: F)
        ensures
            final(self).callbacks@ == old(self).callbacks@.push(callback),
    {
        self.callbacks.push(callback);
    }

    /// Delivers the event: calls the subscribers in the order in which they
    /// subscribed, and stops at the first that fails, with its error.
    pub fn call(&mut self) -> (r: SpeedEditorResult)
        requires
            old(self).wf(),
        ensures
            final(self).callbacks@ == old(self).callbacks@,
            Self::delivered(old(self).callbacks@, r),
    {
        let ghost callbacks = self.callbacks@;
        let n: usize = self.callbacks.len();
        let mut i: usize = 0;
        while i < n
            invariant
                i <= n,
                n == callbacks.len(),
                self.callbacks@ == callbacks,
                callbacks == old(self).callbacks@,
                Self::callable(callbacks),
                forall|j: int| 0 <= j < i ==> #[trigger] Self::answers(callbacks, j, Ok(())),
            decreases n - i,
        {
            let callback: &mut F = &mut self.callbacks[i];
            let r: SpeedEditorResult = callback();
            assert(Self::answers(callbacks, i as int, r));
            match r {
                Ok(done) => {
                    assert(done == ());
                },
                Err(e) => {
                    return Err(e);
                },
            }
            i = i + 1;
        }
        Ok(())
    }
}

impl<F: FnMut() -> SpeedEditorResult> Handler for ConnectedHandler<F> {
    open spec fn subscribers(&self) -> nat {
        self.callbacks@.len()
    }

    fn new() -> (handler: ConnectedHandler<F>) {
        ConnectedHandler { callbacks: Vec::new() }
    }
}

/// The subscribers to the news that the device was lost, in the order in which
/// they subscribed.
pub struct DisconnectedHandler<F> {
    pub callbacks: Vec<F>,
}

impl<F: FnMut() -> SpeedEditorResult> DisconnectedHandler<F> {
    /// Every subscriber of a list may be called, whatever the event holds.
    pub open spec fn callable(callbacks: Seq<F>) -> bool {
        forall|i: int|
            0 <= i < callbacks.len() ==> #[trigger] call_requires(callbacks[i], ())
    }

    /// Subscriber `i` of a list, called with the event, may return `r`.
    pub open spec fn answers(callbacks: Seq<F>, i: int, r: SpeedEditorResult) -> bool {
        call_ensures(callbacks[i], (), r)
    }

    /// What a delivery of the event to a list of subscribers may return: `Ok`
    /// where every subscriber returns `Ok`; an error where some subscriber
    /// returns it and those before it in the list return `Ok`.
    pub open spec fn delivered(callbacks: Seq<F>, r: SpeedEditorResult) -> bool {
        match r {
            Ok(()) => forall|i: int|
                0 <= i < callbacks.len() ==> #[trigger] Self::answers(callbacks, i, r),
            Err(_) => exists|i: int|
                {
                    &&& 0 <= i < callbacks.len()
                    &&& #[trigger] Self::answers(callbacks, i, r)
                    &&& forall|j: int|
                        0 <= j < i ==> #[trigger] Self::answers(callbacks, j, Ok(()))
                },
        }
    }

    /// Every subscriber may be called, whatever the event holds.
    pub open spec fn wf(&self) -> bool {
        Self::callable(self.callbacks@)
    }

    /// Adds a subscriber behind those that are there.
    pub fn push(&mut self, callback: F)
        ensures
            final(self).callbacks@ == old(self).callbacks@.push(callback),
    {
        self.callbacks.push(callback);
    }

    /// Delivers the event: calls the subscribers in the order in which they
    /// subscribed, and stops at the first that fails, with its error.
    pub fn call(&mut self) -> (r: SpeedEditorResult)
        requires
            old(self).wf(),
        ensures
            final(self).callbacks@ == old(self).callbacks@,
            Self::delivered(old(self).callbacks@, r),
    {
        let ghost callbacks = self.callbacks@;
        let n: usize = self.callbacks.len();
        let mut i: usize = 0;
        while i < n
            invariant
                i <= n,
                n == callbacks.len(),
                self.callbacks@ == callbacks,
                callbacks == old(self).callbacks@,
                Self::callable(callbacks),
                forall|j: int| 0 <= j < i ==> #[trigger] Self::answers(callbacks, j, Ok(())),
            decreases n - i,
        {
            let callback: &mut F = &mut self.callbacks[i];
            let r: SpeedEditorResult = callback();
            assert(Self::answers(callbacks, i as int, r));
            match r {
                Ok(done) => {
                    assert(done == ());
                },
                Err(e) => {
                    return Err(e);
                },
            }
            i = i + 1;
        }
        Ok(())
    }
}

impl<F: FnMut() -> SpeedEditorResult> Handler for DisconnectedHandler<F> {
    open spec fn subscribers(&self) -> nat {
        self.callbacks@.len()
    }

    fn new() -> (handler: DisconnectedHandler<F>) {
        DisconnectedHandler { callbacks: Vec::new() }
    }
}

/// The subscribers to the news of the keys that are held down, after a change,
/// in the order in which they subscribed.
pub struct KeysHandler<F> {
    pub callbacks: Vec<F>,
}

impl<F: FnMut(Vec<Key>) -> SpeedEditorResult> KeysHandler<F> {
    /// Every subscriber of a list may be called, whatever the event holds.
    pub open spec fn callable(callbacks: Seq<F>) -> bool {
        forall|i: int, keys: Vec<Key>|
            0 <= i < callbacks.len() ==> #[trigger] call_requires(callbacks[i], (keys, ))
    }

    /// Subscriber `i` of a list, handed a copy of the keys, may return `r`.
    pub open spec fn answers(callbacks: Seq<F>, i: int, keys: Seq<Key>, r: SpeedEditorResult) -> bool {
        exists|copy: Vec<Key>| copy@ == keys && #[trigger] call_ensures(callbacks[i], (copy,), r)
    }

    /// What a delivery of the event to a list of subscribers may return: `Ok`
    /// where every subscriber returns `Ok`; an error where some subscriber
    /// returns it and those before it in the list return `Ok`.
    pub open spec fn delivered(callbacks: Seq<F>, keys: Seq<Key>, r: SpeedEditorResult) -> bool {
        match r {
            Ok(()) => forall|i: int|
                0 <= i < callbacks.len() ==> #[trigger] Self::answers(callbacks, i, keys, r),
            Err(_) => exists|i: int|
                {
                    &&& 0 <= i < callbacks.len()
                    &&& #[trigger] Self::answers(callbacks, i, keys, r)
                    &&& forall|j: int|
                        0 <= j < i ==> #[trigger] Self::answers(callbacks, j, keys, Ok(()))
                },
        }
    }

    /// Every subscriber may be called, whatever the event holds.
    pub open spec fn wf(&self) -> bool {
        Self::callable(self.callbacks@)
    }

    /// Adds a subscriber behind those that are there.
    pub fn push(&mut self, callback: F)
        ensures
            final(self).callbacks@ == old(self).callbacks@.push(callback),
    {
        self.callbacks.push(callback);
    }

    /// Delivers the event: calls the subscribers in the order in which they
    /// subscribed, and stops at the first that fails, with its error.
    pub fn call(&mut self, keys: &Vec<Key>) -> (r: SpeedEditorResult)
        requires
            old(self).wf(),
        ensures
            final(self).callbacks@ == old(self).callbacks@,
            Self::delivered(old(self).callbacks@, keys@, r),
    {
        let ghost callbacks = self.callbacks@;
        let n: usize = self.callbacks.len();
        let mut i: usize = 0;
        while i < n
            invariant
                i <= n,
                n == callbacks.len(),
                self.callbacks@ == callbacks,
                callbacks == old(self).callbacks@,
                Self::callable(callbacks),
                forall|j: int| 0 <= j < i ==> #[trigger] Self::answers(callbacks, j, keys@, Ok(())),
            decreases n - i,
        {
            let callback: &mut F = &mut self.callbacks[i];
            let copy: Vec<Key> = clone_keys(keys);
            let r: SpeedEditorResult = callback(copy);
            assert(Self::answers(callbacks, i as int, keys@, r));
            match r {
                Ok(done) => {
                    assert(done == ());
                },
                Err(e) => {
                    return Err(e);
                },
            }
            i = i + 1;
        }
        Ok(())
    }
}

impl<F: FnMut(Vec<Key>) -> SpeedEditorResult> Handler for KeysHandler<F> {
    open spec fn subscribers(&self) -> nat {
        self.callbacks@.len()
    }

    fn new() -> (handler: KeysHandler<F>) {
        KeysHandler { callbacks: Vec::new() }
    }
}

/// The subscribers to the news that a key went down (`down`) or up, in the
/// order in which they subscribed.
pub struct KeyHandler<F> {
    pub callbacks: Vec<F>,
}

impl<F: FnMut(Key, bool) -> SpeedEditorResult> KeyHandler<F> {
    /// Every subscriber of a list may be called, whatever the event holds.
    pub open spec fn callable(callbacks: Seq<F>) -> bool {
        forall|i: int, key: Key, down: bool|
            0 <= i < callbacks.len() ==> #[trigger] call_requires(callbacks[i], (key, down, ))
    }

    /// Subscriber `i` of a list, called with the event, may return `r`.
    pub open spec fn answers(callbacks: Seq<F>, i: int, key: Key, down: bool, r: SpeedEditorResult) -> bool {
        call_ensures(callbacks[i], (key, down, ), r)
    }

    /// What a delivery of the event to a list of subscribers may return: `Ok`
    /// where every subscriber returns `Ok`; an error where some subscriber
    /// returns it and those before it in the list return `Ok`.
    pub open spec fn delivered(callbacks: Seq<F>, key: Key, down: bool, r: SpeedEditorResult) -> bool {
        match r {
            Ok(()) => forall|i: int|
                0 <= i < callbacks.len() ==> #[trigger] Self::answers(callbacks, i, key, down, r),
            Err(_) => exists|i: int|
                {
                    &&& 0 <= i < callbacks.len()
                    &&& #[trigger] Self::answers(callbacks, i, key, down, r)
                    &&& forall|j: int|
                        0 <= j < i ==> #[trigger] Self::answers(callbacks, j, key, down, Ok(()))
                },
        }
    }

    /// Every subscriber may be called, whatever the event holds.
    pub open spec fn wf(&self) -> bool {
        Self::callable(self.callbacks@)
    }

    /// Adds a subscriber behind those that are there.
    pub fn push(&mut self, callback: F)
        ensures
            final(self).callbacks@ == old(self).callbacks@.push(callback),
    {
        self.callbacks.push(callback);
    }

    /// Delivers the event: calls the subscribers in the order in which they
    /// subscribed, and stops at the first that fails, with its error.
    pub fn call(&mut self, key: Key, down: bool) -> (r: SpeedEditorResult)
        requires
            old(self).wf(),
        ensures
            final(self).callbacks@ == old(self).callbacks@,
            Self::delivered(old(self).callbacks@, key, down, r),
    {
        let ghost callbacks = self.callbacks@;
        let n: usize = self.callbacks.len();
        let mut i: usize = 0;
        while i < n
            invariant
                i <= n,
                n == callbacks.len(),
                self.callbacks@ == callbacks,
                callbacks == old(self).callbacks@,
                Self::callable(callbacks),
                forall|j: int| 0 <= j < i ==> #[trigger] Self::answers(callbacks, j, key, down, Ok(())),
            decreases n - i,
        {
            let callback: &mut F = &mut self.callbacks[i];
            let r: SpeedEditorResult = callback(key, down);
            assert(Self::answers(callbacks, i as int, key, down, r));
            match r {
                Ok(done) => {
                    assert(done == ());
                },
                Err(e) => {
                    return Err(e);
                },
            }
            i = i + 1;
        }
        Ok(())
    }
}

impl<F: FnMut(Key, bool) -> SpeedEditorResult> Handler for KeyHandler<F> {
    open spec fn subscribers(&self) -> nat {
        self.callbacks@.len()
    }

    fn new() -> (handler: KeyHandler<F>) {
        KeyHandler { callbacks: Vec::new() }
    }
}

/// The subscribers to the news that a key went down, in the order in which they
/// subscribed.
pub struct KeyDownHandler<F> {
    pub callbacks: Vec<F>,
}

impl<F: FnMut(Key) -> SpeedEditorResult> KeyDownHandler<F> {
    /// Every subscriber of a list may be called, whatever the event holds.
    pub open spec fn callable(callbacks: Seq<F>) -> bool {
        forall|i: int, key: Key|
            0 <= i < callbacks.len() ==> #[trigger] call_requires(callbacks[i], (key, ))
    }

    /// Subscriber `i` of a list, called with the event, may return `r`.
    pub open spec fn answers(callbacks: Seq<F>, i: int, key: Key, r: SpeedEditorResult) -> bool {
        call_ensures(callbacks[i], (key, ), r)
    }

    /// What a delivery of the event to a list of subscribers may return: `Ok`
    /// where every subscriber returns `Ok`; an error where some subscriber
    /// returns it and those before it in the list return `Ok`.
    pub open spec fn delivered(callbacks: Seq<F>, key: Key, r: SpeedEditorResult) -> bool {
        match r {
            Ok(()) => forall|i: int|
                0 <= i < callbacks.len() ==> #[trigger] Self::answers(callbacks, i, key, r),
            Err(_) => exists|i: int|
                {
                    &&& 0 <= i < callbacks.len()
                    &&& #[trigger] Self::answers(callbacks, i, key, r)
                    &&& forall|j: int|
                        0 <= j < i ==> #[trigger] Self::answers(callbacks, j, key, Ok(()))
                },
        }
    }

    /// Every subscriber may be called, whatever the event holds.
    pub open spec fn wf(&self) -> bool {
        Self::callable(self.callbacks@)
    }

    /// Adds a subscriber behind those that are there.
    pub fn push(&mut self, callback: F)
        ensures
            final(self).callbacks@ == old(self).callbacks@.push(callback),
    {
        self.callbacks.push(callback);
    }

    /// Delivers the event: calls the subscribers in the order in which they
    /// subscribed, and stops at the first that fails, with its error.
    pub fn call(&mut self, key: Key) -> (r: SpeedEditorResult)
        requires
            old(self).wf(),
        ensures
            final(self).callbacks@ == old(self).callbacks@,
            Self::delivered(old(self).callbacks@, key, r),
    {
        let ghost callbacks = self.callbacks@;
        let n: usize = self.callbacks.len();
        let mut i: usize = 0;
        while i < n
            invariant
                i <= n,
                n == callbacks.len(),
                self.callbacks@ == callbacks,
                callbacks == old(self).callbacks@,
                Self::callable(callbacks),
                forall|j: int| 0 <= j < i ==> #[trigger] Self::answers(callbacks, j, key, Ok(())),
            decreases n - i,
        {
            let callback: &mut F = &mut self.callbacks[i];
            let r: SpeedEditorResult = callback(key);
            assert(Self::answers(callbacks, i as int, key, r));
            match r {
                Ok(done) => {
                    assert(done == ());
                },
                Err(e) => {
                    return Err(e);
                },
            }
            i = i + 1;
        }
        Ok(())
    }
}

impl<F: FnMut(Key) -> SpeedEditorResult> Handler for KeyDownHandler<F> {
    open spec fn subscribers(&self) -> nat {
        self.callbacks@.len()
    }

    fn new() -> (handler: KeyDownHandler<F>) {
        KeyDownHandler { callbacks: Vec::new() }
    }
}

/// The subscribers to the news that a key went up, in the order in which they
/// subscribed.
pub struct KeyUpHandler<F> {
    pub callbacks: Vec<F>,
}

impl<F: FnMut(Key) -> SpeedEditorResult> KeyUpHandler<F> {
    /// Every subscriber of a list may be called, whatever the event holds.
    pub open spec fn callable(callbacks: Seq<F>) -> bool {
        forall|i: int, key: Key|
            0 <= i < callbacks.len() ==> #[trigger] call_requires(callbacks[i], (key, ))
    }

    /// Subscriber `i` of a list, called with the event, may return `r`.
    pub open spec fn answers(callbacks: Seq<F>, i: int, key: Key, r: SpeedEditorResult) -> bool {
        call_ensures(callbacks[i], (key, ), r)
    }

    /// What a delivery of the event to a list of subscribers may return: `Ok`
    /// where every subscriber returns `Ok`; an error where some subscriber
    /// returns it and those before it in the list return `Ok`.
    pub open spec fn delivered(callbacks: Seq<F>, key: Key, r: SpeedEditorResult) -> bool {
        match r {
            Ok(()) => forall|i: int|
                0 <= i < callbacks.len() ==> #[trigger] Self::answers(callbacks, i, key, r),
            Err(_) => exists|i: int|
                {
                    &&& 0 <= i < callbacks.len()
                    &&& #[trigger] Self::answers(callbacks, i, key, r)
                    &&& forall|j: int|
                        0 <= j < i ==> #[trigger] Self::answers(callbacks, j, key, Ok(()))
                },
        }
    }

    /// Every subscriber may be called, whatever the event holds.
    pub open spec fn wf(&self) -> bool {
        Self::callable(self.callbacks@)
    }

    /// Adds a subscriber behind those that are there.
    pub fn push(&mut self, callback: F)
        ensures
            final(self).callbacks@ == old(self).callbacks@.push(callback),
    {
        self.callbacks.push(callback);
    }

    /// Delivers the event: calls the subscribers in the order in which they
    /// subscribed, and stops at the first that fails, with its error.
    pub fn call(&mut self, key: Key) -> (r: SpeedEditorResult)
        requires
            old(self).wf(),
        ensures
            final(self).callbacks@ == old(self).callbacks@,
            Self::delivered(old(self).callbacks@, key, r),
    {
        let ghost callbacks = self.callbacks@;
        let n: usize = self.callbacks.len();
        let mut i: usize = 0;
        while i < n
            invariant
                i <= n,
                n == callbacks.len(),
                self.callbacks@ == callbacks,
                callbacks == old(self).callbacks@,
                Self::callable(callbacks),
                forall|j: int| 0 <= j < i ==> #[trigger] Self::answers(callbacks, j, key, Ok(())),
            decreases n - i,
        {
            let callback: &mut F = &mut self.callbacks[i];
            let r: SpeedEditorResult = callback(key);
            assert(Self::answers(callbacks, i as int, key, r));
            match r {
                Ok(done) => {
                    assert(done == ());
                },
                Err(e) => {
                    return Err(e);
                },
            }
            i = i + 1;
        }
        Ok(())
    }
}

impl<F: FnMut(Key) -> SpeedEditorResult> Handler for KeyUpHandler<F> {
    open spec fn subscribers(&self) -> nat {
        self.callbacks@.len()
    }

    fn new() -> (handler: KeyUpHandler<F>) {
        KeyUpHandler { callbacks: Vec::new() }
    }
}

/// The subscribers to the news of a turn of the jog wheel, with the mode that
/// the device reports, in the order in which they subscribed.
pub struct JogHandler<F> {
    pub callbacks: Vec<F>,
}

impl<F: FnMut(u8, i32) -> SpeedEditorResult> JogHandler<F> {
    /// Every subscriber of a list may be called, whatever the event holds.
    pub open spec fn callable(callbacks: Seq<F>) -> bool {
        forall|i: int, mode: u8, value: i32|
            0 <= i < callbacks.len() ==> #[trigger] call_requires(callbacks[i], (mode, value, ))
    }

    /// Subscriber `i` of a list, called with the event, may return `r`.
    pub open spec fn answers(callbacks: Seq<F>, i: int, mode: u8, value: i32, r: SpeedEditorResult) -> bool {
        call_ensures(callbacks[i], (mode, value, ), r)
    }

    /// What a delivery of the event to a list of subscribers may return: `Ok`
    /// where every subscriber returns `Ok`; an error where some subscriber
    /// returns it and those before it in the list return `Ok`.
    pub open spec fn delivered(callbacks: Seq<F>, mode: u8, value: i32, r: SpeedEditorResult) -> bool {
        match r {
            Ok(()) => forall|i: int|
                0 <= i < callbacks.len() ==> #[trigger] Self::answers(callbacks, i, mode, value, r),
            Err(_) => exists|i: int|
                {
                    &&& 0 <= i < callbacks.len()
                    &&& #[trigger] Self::answers(callbacks, i, mode, value, r)
                    &&& forall|j: int|
                        0 <= j < i ==> #[trigger] Self::answers(callbacks, j, mode, value, Ok(()))
                },
        }
    }

    /// Every subscriber may be called, whatever the event holds.
    pub open spec fn wf(&self) -> bool {
        Self::callable(self.callbacks@)
    }

    /// Adds a subscriber behind those that are there.
    pub fn push(&mut self, callback: F)
        ensures
            final(self).callbacks@ == old(self).callbacks@.push(callback),
    {
        self.callbacks.push(callback);
    }

    /// Delivers the event: calls the subscribers in the order in which they
    /// subscribed, and stops at the first that fails, with its error.
    pub fn call(&mut self, mode: u8, value: i32) -> (r: SpeedEditorResult)
        requires
            old(self).wf(),
        ensures
            final(self).callbacks@ == old(self).callbacks@,
            Self::delivered(old(self).callbacks@, mode, value, r),
    {
        let ghost callbacks = self.callbacks@;
        let n: usize = self.callbacks.len();
        let mut i: usize = 0;
        while i < n
            invariant
                i <= n,
                n == callbacks.len(),
                self.callbacks@ == callbacks,
                callbacks == old(self).callbacks@,
                Self::callable(callbacks),
                forall|j: int| 0 <= j < i ==> #[trigger] Self::answers(callbacks, j, mode, value, Ok(())),
            decreases n - i,
        {
            let callback: &mut F = &mut self.callbacks[i];
            let r: SpeedEditorResult = callback(mode, value);
            assert(Self::answers(callbacks, i as int, mode, value, r));
            match r {
                Ok(done) => {
                    assert(done == ());
                },
                Err(e) => {
                    return Err(e);
                },
            }
            i = i + 1;
        }
        Ok(())
    }
}

impl<F: FnMut(u8, i32) -> SpeedEditorResult> Handler for JogHandler<F> {
    open spec fn subscribers(&self) -> nat {
        self.callbacks@.len()
    }

    fn new() -> (handler: JogHandler<F>) {
        JogHandler { callbacks: Vec::new() }
    }
}

/// The subscribers to the news of a report that the session cannot read, in the
/// order in which they subscribed.
pub struct UnknownHandler<F> {
    pub callbacks: Vec<F>,
}

impl<F: FnMut(&[u8]) -> SpeedEditorResult> UnknownHandler<F> {
    /// Every subscriber of a list may be called, whatever the event holds.
    pub open spec fn callable(callbacks: Seq<F>) -> bool {
        forall|i: int, data: &[u8]|
            0 <= i < callbacks.len() ==> #[trigger] call_requires(callbacks[i], (data, ))
    }

    /// Subscriber `i` of a list, called with the event, may return `r`.
    pub open spec fn answers(callbacks: Seq<F>, i: int, data: &[u8], r: SpeedEditorResult) -> bool {
        call_ensures(callbacks[i], (data, ), r)
    }

    /// What a delivery of the event to a list of subscribers may return: `Ok`
    /// where every subscriber returns `Ok`; an error where some subscriber
    /// returns it and those before it in the list return `Ok`.
    pub open spec fn delivered(callbacks: Seq<F>, data: &[u8], r: SpeedEditorResult) -> bool {
        match r {
            Ok(()) => forall|i: int|
                0 <= i < callbacks.len() ==> #[trigger] Self::answers(callbacks, i, data, r),
            Err(_) => exists|i: int|
                {
                    &&& 0 <= i < callbacks.len()
                    &&& #[trigger] Self::answers(callbacks, i, data, r)
                    &&& forall|j: int|
                        0 <= j < i ==> #[trigger] Self::answers(callbacks, j, data, Ok(()))
                },
        }
    }

    /// Every subscriber may be called, whatever the event holds.
    pub open spec fn wf(&self) -> bool {
        Self::callable(self.callbacks@)
    }

    /// Adds a subscriber behind those that are there.
    pub fn push(&mut self, callback: F)
        ensures
            final(self).callbacks@ == old(self).callbacks@.push(callback),
    {
        self.callbacks.push(callback);
    }

    /// Delivers the event: calls the subscribers in the order in which they
    /// subscribed, and stops at the first that fails, with its error.
    pub fn call(&mut self, data: &[u8]) -> (r: SpeedEditorResult)
        requires
            old(self).wf(),
        ensures
            final(self).callbacks@ == old(self).callbacks@,
            Self::delivered(old(self).callbacks@, data, r),
    {
        let ghost callbacks = self.callbacks@;
        let n: usize = self.callbacks.len();
        let mut i: usize = 0;
        while i < n
            invariant
                i <= n,
                n == callbacks.len(),
                self.callbacks@ == callbacks,
                callbacks == old(self).callbacks@,
                Self::callable(callbacks),
                forall|j: int| 0 <= j < i ==> #[trigger] Self::answers(callbacks, j, data, Ok(())),
            decreases n - i,
        {
            let callback: &mut F = &mut self.callbacks[i];
            let r: SpeedEditorResult = callback(data);
            assert(Self::answers(callbacks, i as int, data, r));
            match r {
                Ok(done) => {
                    assert(done == ());
                },
                Err(e) => {
                    return Err(e);
                },
            }
            i = i + 1;
        }
        Ok(())
    }
}

impl<F: FnMut(&[u8]) -> SpeedEditorResult> Handler for UnknownHandler<F> {
    open spec fn subscribers(&self) -> nat {
        self.callbacks@.len()
    }

    fn new() -> (handler: UnknownHandler<F>) {
        UnknownHandler { callbacks: Vec::new() }
    }
}

} // verus!
