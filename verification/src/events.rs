//! Named topics with subscribers, where a late subscriber still gets the latest payload.

use crate::replicate::Replicate;
use crate::str_map::StrMap;
use vstd::prelude::*;
use vstd::string::*;

verus! {

/// The subscribers of a topic, in the order in which they subscribed.
pub open spec fn listeners(subscribers: Map<Seq<char>, Seq<usize>>, event: Seq<char>) -> Seq<
    usize,
> {
    if subscribers.contains_key(event) {
        subscribers[event]
    } else {
        Seq::empty()
    }
}

/// The latest payload of a topic.
pub open spec fn latest_of(latest: Map<Seq<char>, Seq<char>>, event: Seq<char>) -> Option<
    Seq<char>,
> {
    if latest.contains_key(event) {
        Some(latest[event])
    } else {
        None
    }
}

/// Topics, each with the handles of its subscribers and the payload emitted last.
#[derive(Debug)]
pub struct Emitter {
    events: StrMap<Vec<usize>>,
    last_emit_args: StrMap<String>,
}

impl Emitter {
    /// For each topic the handles of its subscribers, in the order in which they subscribed.
    pub closed spec fn subscribers(&self) -> Map<Seq<char>, Seq<usize>> {
        self.events@
    }

    /// For each topic the payload that was emitted last.
    pub closed spec fn latest(&self) -> Map<Seq<char>, Seq<char>> {
        self.last_emit_args@
    }

    /// An emitter without topics.
    pub fn new() -> (r: Self)
        ensures
            r.subscribers() == Map::<Seq<char>, Seq<usize>>::empty(),
            r.latest() == Map::<Seq<char>, Seq<char>>::empty(),
    {
        Emitter { events: StrMap::new(), last_emit_args: StrMap::new() }
    }

    /// Records `args` as the latest payload of the topic, and names the subscribers to notify,
    /// in the order in which they subscribed.
    pub fn emit(&mut self, event: &str, args: String) -> (notify: Vec<usize>)
        ensures
            final(self).latest() == old(self).latest().insert(event@, args@),
            final(self).subscribers() == old(self).subscribers(),
            notify@ == listeners(old(self).subscribers(), event@),
    {
        self.last_emit_args.insert(String::from_str(event), args);
        match self.events.get(event) {
            Some(callbacks) => {
                let notify = callbacks.replicate();
                proof {
                    assert(notify@ =~= notify.deep_view());
                    assert(callbacks@ =~= callbacks.deep_view());
                }
                notify
            },
            None => Vec::new(),
        }
    }

    /// Adds the subscriber with the handle `callback` to the topic. The latest payload of the
    /// topic, if there is one, is handed back for the subscriber to get at once.
    pub fn on(&mut self, event: &str, callback: usize) -> (replay: Option<String>)
        ensures
            final(self).subscribers() == old(self).subscribers().insert(
                event@,
                listeners(old(self).subscribers(), event@).push(callback),
            ),
            final(self).latest() == old(self).latest(),
            replay.deep_view() == latest_of(old(self).latest(), event@),
    {
        let mut callbacks = match self.events.get(event) {
            Some(callbacks) => {
                let copy = callbacks.replicate();
                proof {
                    assert(copy@ =~= copy.deep_view());
                    assert(callbacks@ =~= callbacks.deep_view());
                }
                copy
            },
            None => Vec::new(),
        };
        let replay = match self.last_emit_args.get(event) {
            Some(args) => Some(args.clone()),
            None => None,
        };
        let ghost before = callbacks@;
        callbacks.push(callback);
        proof {
            assert(callbacks.deep_view() =~= before.push(callback));
        }
        self.events.insert(String::from_str(event), callbacks);
        replay
    }
}

} // verus!
