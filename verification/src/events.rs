//! Events: handlers kept under subscription tokens that only grow.

use vstd::prelude::*;
use std::collections::BTreeMap;
use vstd::std_specs::btree::*;
use vstd::std_specs::iter::IteratorSpec;

verus! {

/// Whether `r` holds the handlers of `m` in the rising order of their
/// tokens, each once.
pub open spec fn in_token_order<H>(m: Map<usize, H>, r: Seq<H>) -> bool {
    exists|keys: Seq<usize>|
        {
            &&& #[trigger] increasing_seq(keys)
            &&& keys.to_set() == m.dom()
            &&& keys.no_duplicates()
            &&& r == keys.map(|i: int, k: usize| m[k])
        }
}

/// What an event offers. `H` is what is kept for a handler.
pub trait EventHandler<H: Copy> {
    /// The subscriptions: each token with its handler.
    spec fn subscriptions(&self) -> Map<usize, H>;

    /// The token that the next subscription gets.
    spec fn next_token(&self) -> usize;

    /// The handlers to call, in the order of their tokens.
    fn invoke(&self) -> (r: Vec<H>)
        ensures
            in_token_order(self.subscriptions(), r@),
    ;

    /// Subscribes `func` and returns its token, which undoes the
    /// subscription when passed to `unsubscribe`. The tokens must not be
    /// used up.
    fn subscribe(&mut self, func: H) -> (id: usize)
        requires
            old(self).next_token() < usize::MAX,
        ensures
            id == old(self).next_token(),
            final(self).next_token() == id + 1,
            final(self).subscriptions() == old(self).subscriptions().insert(id, func),
    ;

    /// Ends the subscription with the token `id` and returns its handler,
    /// or `None` if no subscription has that token.
    fn unsubscribe(&mut self, id: usize) -> (r: Option<H>)
        ensures
            final(self).next_token() == old(self).next_token(),
            final(self).subscriptions() == old(self).subscriptions().remove(id),
            r == if old(self).subscriptions().contains_key(id) {
                Some(old(self).subscriptions()[id])
            } else {
                None::<H>
            },
    ;
}

/// An event: its subscriptions by token, and the next token.
pub struct Event<H> {
    handlers: BTreeMap<usize, H>,
    next_id: usize,
}

impl<H: Copy> Event<H> {
    /// Every token in use is below the next one, so a new subscription
    /// takes the place of none.
    pub open spec fn wf(&self) -> bool {
        forall|k: usize| #[trigger] self.subscriptions().contains_key(k) ==> k < self.next_token()
    }

    /// An event without subscriptions.
    pub fn new() -> (r: Event<H>)
        ensures
            r.wf(),
            r.subscriptions() == Map::<usize, H>::empty(),
            r.next_token() == 0,
    {
        Event { handlers: BTreeMap::new(), next_id: 0 }
    }

    /// Whether a token is left for one more subscription.
    pub fn can_subscribe(&self) -> (r: bool)
        ensures
            r == (self.next_token() < usize::MAX),
    {
        self.next_id < usize::MAX
    }
}

impl<H: Copy> EventHandler<H> for Event<H> {
    closed spec fn subscriptions(&self) -> Map<usize, H> {
        self.handlers@
    }

    closed spec fn next_token(&self) -> usize {
        self.next_id
    }

    fn invoke(&self) -> (r: Vec<H>) {
        let mut out: Vec<H> = Vec::new();
        let values = self.handlers.values();
        let ghost all = values.remaining();
        let ghost keys = choose|keys: Seq<usize>|
            {
                &&& increasing_seq(keys)
                &&& keys.to_set() == self.handlers@.dom()
                &&& keys.no_duplicates()
                &&& all == keys.map(|i: int, k: usize| &self.handlers@[k])
            };
        for h in it: values
            invariant
                it.seq() == all,
                out@ == all.take(it.index() as int).map(|i: int, v: &H| *v),
        {
            out.push(*h);
            proof {
                assert(all.take(it.index() + 1).map(|i: int, v: &H| *v) =~= all.take(
                    it.index() as int,
                ).map(|i: int, v: &H| *v).push(*h));
            }
        }
        proof {
            assert(all.take(all.len() as int) =~= all);
            assert(out@ =~= keys.map(|i: int, k: usize| self.handlers@[k]));
        }
        out
    }

    fn subscribe(&mut self, func: H) -> (id: usize)
        ensures
            old(self).wf() ==> final(self).wf(),
    {
        let id = self.next_id;
        self.handlers.insert(id, func);
        self.next_id = id + 1;
        proof {
            if old(self).wf() {
                assert forall|k: usize| #[trigger]
                    self.subscriptions().contains_key(k) implies k < self.next_token() by {
                    if k != id {
                        assert(old(self).subscriptions().contains_key(k));
                    }
                }
            }
        }
        id
    }

    fn unsubscribe(&mut self, id: usize) -> (r: Option<H>)
        ensures
            old(self).wf() ==> final(self).wf(),
    {
        let r = self.handlers.remove(&id);
        proof {
            if old(self).wf() {
                assert forall|k: usize| #[trigger]
                    self.subscriptions().contains_key(k) implies k < self.next_token() by {
                    assert(old(self).subscriptions().contains_key(k));
                }
            }
        }
        r
    }
}

} // verus!
