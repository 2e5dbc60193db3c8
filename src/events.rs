use vstd::prelude::*;

verus! {

/// The kinds of change that the file store announces.
#[derive(Debug, Clone, Copy, PartialEq, Eq, Hash, Structural)]
pub enum FSHookType {
    AddFile,
    DeleteFile,
}

/// The owner-relative paths that a change touched.
#[derive(Debug, Clone)]
pub struct FSHookPayload(pub Vec<String>);

/// The handlers among `events` that listen to `event`, in the order they
/// were registered.
pub open spec fn handlers_of<L>(events: Seq<(FSHookType, L)>, event: FSHookType) -> Seq<L>
    decreases events.len(),
{
    if events.len() == 0 {
        Seq::empty()
    } else {
        let rest = handlers_of(events.drop_last(), event);
        if events.last().0 == event {
            rest.push(events.last().1)
        } else {
            rest
        }
    }
}

/// A registry of handlers, each listening to one kind of change. Handlers
/// stay for the life of the registry.
pub struct EventEmitter<L> {
    events: Vec<(FSHookType, L)>,
}

impl<L> View for EventEmitter<L> {
    /// Every registration, in order.
    type V = Seq<(FSHookType, L)>;

    closed spec fn view(&self) -> Seq<(FSHookType, L)> {
        self.events@
    }
}

impl<L> EventEmitter<L> {
    /// A registry without handlers.
    pub fn new() -> (r: Self)
        ensures
            r@ == Seq::<(FSHookType, L)>::empty(),
    {
        EventEmitter { events: Vec::new() }
    }

    /// Registers `cb` for changes of kind `event`, after those already there.
    pub fn listen(&mut self, event: FSHookType, cb: L)
        ensures
            final(self)@ == old(self)@.push((event, cb)),
    {
        self.events.push((event, cb));
    }

    /// The handlers that listen to `event`, in the order they were registered.
    pub fn listeners_of(&self, event: FSHookType) -> (r: Vec<&L>)
        ensures
            r@.len() == handlers_of(self@, event).len(),
            forall|i: int| 0 <= i < r@.len() ==> *(#[trigger] r@[i]) == handlers_of(self@, event)[i],
    {
        let mut r: Vec<&L> = Vec::new();
        let mut i: usize = 0;
        while i < self.events.len()
            invariant
                i <= self.events@.len(),
                r@.len() == handlers_of(self.events@.take(i as int), event).len(),
                forall|j: int|
                    0 <= j < r@.len() ==> *(#[trigger] r@[j]) == handlers_of(
                        self.events@.take(i as int),
                        event,
                    )[j],
            decreases self.events@.len() - i,
        {
            proof {
                assert(self.events@.take(i + 1).drop_last() =~= self.events@.take(i as int));
            }
            if self.events[i].0 == event {
                r.push(&self.events[i].1);
            }
            i = i + 1;
        }
        proof {
            assert(self.events@.take(self.events@.len() as int) =~= self.events@);
        }
        r
    }
}

impl<L: Fn(FSHookPayload)> EventEmitter<L> {
    /// Calls every handler of `event` with its own copy of `payload`, in the
    /// order they were registered, and gives how many were called.
    pub fn emit(&self, event: FSHookType, payload: &FSHookPayload) -> (r: usize)
        requires
            forall|i: int, p: FSHookPayload|
                0 <= i < self@.len() ==> #[trigger] call_requires(self@[i].1, (p,)),
        ensures
            r == handlers_of(self@, event).len(),
    {
        let listeners = self.listeners_of(event);
        let mut i: usize = 0;
        while i < listeners.len()
            invariant
                i <= listeners@.len(),
                listeners@.len() == handlers_of(self@, event).len(),
                forall|j: int|
                    0 <= j < listeners@.len() ==> *(#[trigger] listeners@[j]) == handlers_of(
                        self@,
                        event,
                    )[j],
                forall|j: int, p: FSHookPayload|
                    0 <= j < self@.len() ==> #[trigger] call_requires(self@[j].1, (p,)),
            decreases listeners@.len() - i,
        {
            let l = listeners[i];
            proof {
                lemma_handler_registered(self@, event, i as int);
            }
            l(payload.clone());
            i = i + 1;
        }
        listeners.len()
    }
}

proof fn lemma_handler_registered<L>(events: Seq<(FSHookType, L)>, event: FSHookType, i: int)
    requires
        0 <= i < handlers_of(events, event).len(),
    ensures
        exists|j: int| 0 <= j < events.len() && events[j].1 == handlers_of(events, event)[i],
    decreases events.len(),
{
    let rest = handlers_of(events.drop_last(), event);
    if i < rest.len() {
        lemma_handler_registered(events.drop_last(), event, i);
        let j = choose|j: int| 0 <= j < events.drop_last().len() && events.drop_last()[j].1 == rest[i];
        assert(events[j].1 == handlers_of(events, event)[i]);
    } else {
        assert(events[events.len() - 1].1 == handlers_of(events, event)[i]);
    }
}

} // verus!
