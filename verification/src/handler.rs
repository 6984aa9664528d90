//! The registry of handlers: for each topic, the handlers to run, in the order in
//! which they were registered.
//!
//! The registry does not hold the handlers themselves. It holds the numbers under
//! which the application keeps them, so that a handler can be any function the
//! application is able to call.
use vstd::prelude::*;

verus! {

/// The hash map of the registry: `hashbrown::HashMap` from a topic to the
/// handlers registered for it.
///
/// Verus is told nothing of what is inside: what the map holds is `routes`, and
/// the three functions below are the only ones that touch it.
#[verifier::external_body]
pub struct HandlerMapper {
    inner: hashbrown::HashMap<String, Vec<usize>>,
}

/// What a `HandlerMapper` holds: for each topic that has an entry, its handlers.
pub uninterp spec fn routes(mapper: HandlerMapper) -> Map<Seq<char>, Seq<usize>>;

/// The map without any topic.
pub open spec fn no_routes() -> Map<Seq<char>, Seq<usize>> {
    Map::empty()
}

/// `hashbrown::HashMap::new`: a map that holds nothing.
#[verifier::external_body]
fn mapper_new() -> (mapper: HandlerMapper)
    ensures
        routes(mapper) == no_routes(),
{
    HandlerMapper { inner: hashbrown::HashMap::new() }
}

/// `hashbrown::HashMap::get`: the value stored under `topic`, if the map has that
/// key. Two strings are the same key exactly when they hold the same characters.
#[verifier::external_body]
fn mapper_get<'a>(mapper: &'a HandlerMapper, topic: &String) -> (found: Option<&'a Vec<usize>>)
    ensures
        found.is_some() == routes(*mapper).contains_key(topic@),
        found.is_some() ==> found.unwrap()@ == routes(*mapper)[topic@],
{
    mapper.inner.get(topic)
}

/// `hashbrown::HashMap::insert`: afterwards the map holds `handlers` under
/// `topic` and is otherwise as before. The value that was stored under the key
/// before, if there was one, is returned.
#[verifier::external_body]
fn mapper_insert(mapper: &mut HandlerMapper, topic: String, handlers: Vec<usize>) -> (former: Option<
    Vec<usize>,
>)
    ensures
        routes(*final(mapper)) == routes(*old(mapper)).insert(topic@, handlers@),
        former.is_some() == routes(*old(mapper)).contains_key(topic@),
        former.is_some() ==> former.unwrap()@ == routes(*old(mapper))[topic@],
{
    mapper.inner.insert(topic, handlers)
}

/// Every command topic has exactly one handler.
pub open spec fn one_each(commands: Map<Seq<char>, Seq<usize>>) -> bool {
    forall|topic: Seq<char>| #[trigger] commands.contains_key(topic) ==> commands[topic].len() == 1
}

/// The handlers of the application, by topic: one for each command topic, any
/// number for each event topic. It is filled once, before the first dispatch, and
/// only read afterwards.
pub struct HandlerRegistry {
    commands: HandlerMapper,
    events: HandlerMapper,
}

pub struct HandlerRegistryView {
    /// The handler of each command topic that has one.
    pub commands: Map<Seq<char>, usize>,
    /// The handlers of each event topic that has any, in the order of
    /// registration.
    pub events: Map<Seq<char>, Seq<usize>>,
}

impl HandlerRegistryView {
    pub open spec fn empty() -> HandlerRegistryView {
        HandlerRegistryView { commands: Map::empty(), events: Map::empty() }
    }

    /// The handlers to run for an event of this topic.
    pub open spec fn handlers_for(self, topic: Seq<char>) -> Seq<usize> {
        if self.events.contains_key(topic) {
            self.events[topic]
        } else {
            Seq::empty()
        }
    }

    /// The handler to run for a command of this topic.
    pub open spec fn command_handler(self, topic: Seq<char>) -> Option<usize> {
        if self.commands.contains_key(topic) {
            Some(self.commands[topic])
        } else {
            None
        }
    }
}

impl View for HandlerRegistry {
    type V = HandlerRegistryView;

    closed spec fn view(&self) -> HandlerRegistryView {
        HandlerRegistryView {
            commands: Map::new(
                |topic: Seq<char>| routes(self.commands).contains_key(topic),
                |topic: Seq<char>| routes(self.commands)[topic][0],
            ),
            events: routes(self.events),
        }
    }
}

impl HandlerRegistry {
    #[verifier::type_invariant]
    spec fn inv(&self) -> bool {
        one_each(routes(self.commands))
    }

    /// A registry without handlers.
    pub fn new() -> (registry: HandlerRegistry)
        ensures
            registry@ == HandlerRegistryView::empty(),
    {
        let registry = HandlerRegistry { commands: mapper_new(), events: mapper_new() };
        proof {
            assert(registry@.commands =~= Map::<Seq<char>, usize>::empty());
            assert(registry@.events =~= Map::<Seq<char>, Seq<usize>>::empty());
        }
        registry
    }

    /// Registers `handler` as the one handler of the command topic `topic`. A
    /// topic keeps the handler it has: where it has one already, nothing is
    /// changed and `false` comes back.
    pub fn register_command_handler(&mut self, topic: String, handler: usize) -> (registered: bool)
        ensures
            registered == !old(self)@.commands.contains_key(topic@),
            final(self)@ == if registered {
                HandlerRegistryView {
                    commands: old(self)@.commands.insert(topic@, handler),
                    ..old(self)@
                }
            } else {
                old(self)@
            },
    {
        proof {
            use_type_invariant(&*self);
        }
        if mapper_get(&self.commands, &topic).is_some() {
            return false;
        }
        let mut only: Vec<usize> = Vec::new();
        only.push(handler);
        let ghost before = routes(self.commands);
        // The map is taken out while it changes and put back when it holds one
        // handler for each topic again.
        let mut commands = mapper_new();
        core::mem::swap(&mut self.commands, &mut commands);
        mapper_insert(&mut commands, topic, only);
        proof {
            assert(one_each(routes(commands))) by {
                assert forall|t: Seq<char>| #[trigger]
                    routes(commands).contains_key(t) implies routes(commands)[t].len() == 1 by {
                    if t != topic@ {
                        assert(before.contains_key(t));
                    }
                }
            }
        }
        self.commands = commands;
        proof {
            assert(self@.commands =~= old(self)@.commands.insert(topic@, handler));
        }
        true
    }

    /// Registers `handler` for the event topic `topic`, behind the handlers that
    /// the topic has already.
    pub fn register_event_handler(&mut self, topic: String, handler: usize)
        ensures
            final(self)@ == (HandlerRegistryView {
                events: old(self)@.events.insert(
                    topic@,
                    old(self)@.handlers_for(topic@).push(handler),
                ),
                ..old(self)@
            }),
    {
        proof {
            use_type_invariant(&*self);
        }
        let mut handlers = self.event_handlers(&topic);
        handlers.push(handler);
        let mut events = mapper_new();
        core::mem::swap(&mut self.events, &mut events);
        mapper_insert(&mut events, topic, handlers);
        self.events = events;
    }

    /// The handler of the command topic `topic`, if it has one.
    pub fn command_handler(&self, topic: &String) -> (handler: Option<usize>)
        ensures
            handler == self@.command_handler(topic@),
    {
        proof {
            use_type_invariant(self);
        }
        match mapper_get(&self.commands, topic) {
            Some(only) => {
                assert(routes(self.commands).contains_key(topic@));
                Some(only[0])
            },
            None => None,
        }
    }

    /// The handlers of the event topic `topic`, in the order of registration:
    /// none where nothing was registered for it.
    pub fn event_handlers(&self, topic: &String) -> (handlers: Vec<usize>)
        ensures
            handlers@ == self@.handlers_for(topic@),
    {
        let mut handlers: Vec<usize> = Vec::new();
        match mapper_get(&self.events, topic) {
            Some(found) => {
                let mut i: usize = 0;
                while i < found.len()
                    invariant
                        i <= found.len(),
                        handlers@ == found@.take(i as int),
                    decreases found.len() - i,
                {
                    handlers.push(found[i]);
                    proof {
                        assert(found@.take(i as int + 1) =~= found@.take(i as int).push(
                            found@[i as int],
                        ));
                    }
                    i += 1;
                }
                proof {
                    assert(found@.take(i as int) =~= found@);
                }
            },
            None => {},
        }
        handlers
    }
}

} // verus!
