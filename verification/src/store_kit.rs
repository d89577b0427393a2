//! StoreKit framework state and the object handles it works with.

pub mod sk_payment_queue;
pub mod sk_product;

use vstd::prelude::*;

verus! {

/// A handle of an Objective-C object in guest memory (a 32-bit guest address).
pub type Id = u32;

/// The null object handle.
pub const NIL: Id = 0;

/// StoreKit's framework-wide state.
pub struct State {
    /// `SKPaymentQueue*` singleton returned by `+[SKPaymentQueue defaultQueue]`.
    default_queue: Option<Id>,
}

/// The part of the emulator's framework state that StoreKit owns.
pub struct FrameworkState {
    pub store_kit: State,
}

/// The emulator environment, as far as StoreKit reads and writes it.
pub struct Environment {
    pub framework_state: FrameworkState,
}

impl Default for State {
    /// No default queue has been created yet.
    fn default() -> (state: State)
        ensures
            state.default_queue_spec() is None,
    {
        State { default_queue: None }
    }
}

impl State {
    /// The queue handle that the singleton holds, if it was created.
    pub closed spec fn default_queue_spec(&self) -> Option<Id> {
        self.default_queue
    }

    /// StoreKit's state inside the environment.
    pub fn get(env: &mut Environment) -> (state: &mut State)
        ensures
            *state == old(env).framework_state.store_kit,
            final(env).framework_state.store_kit == *final(state),
    {
        &mut env.framework_state.store_kit
    }

    /// `+[SKPaymentQueue defaultQueue]`, the decision: the singleton queue
    /// if it was already created. Only on `None` does the caller allocate and
    /// initialise a queue, which it hands to [`State::install_default_queue`].
    pub fn existing_default_queue(&self) -> (queue: Option<Id>)
        ensures
            queue == self.default_queue_spec(),
    {
        self.default_queue
    }

    /// `+[SKPaymentQueue defaultQueue]`, after creating the queue: keeps it
    /// for the lifetime of the process and returns it. A queue is installed
    /// only while none is held, so the singleton is never replaced.
    pub fn install_default_queue(&mut self, queue: Id) -> (installed: Id)
        requires
            old(self).default_queue_spec() is None,
        ensures
            final(self).default_queue_spec() == Some(queue),
            installed == queue,
    {
        self.default_queue = Some(queue);
        queue
    }
}


/// The recipients of a delivery: of the candidates, in order, those that
/// answered that they respond to the message (`responds[i]` for
/// `candidates[i]`).
pub open spec fn responding<A>(candidates: Seq<A>, responds: Seq<bool>) -> Seq<A>
    decreases candidates.len(),
{
    if candidates.len() == 0 || responds.len() == 0 {
        Seq::empty()
    } else {
        let rest = responding(candidates.drop_last(), responds.drop_last());
        if responds.last() {
            rest.push(candidates.last())
        } else {
            rest
        }
    }
}

/// A delivery reaches only its candidates, and when every candidate responds
/// it reaches all of them, in order.
pub proof fn lemma_responding_subset<A>(candidates: Seq<A>, responds: Seq<bool>)
    requires
        candidates.len() == responds.len(),
    ensures
        forall|x: A| responding(candidates, responds).contains(x) ==> candidates.contains(x),
        (forall|i: int| 0 <= i < responds.len() ==> responds[i]) ==> responding(
            candidates,
            responds,
        ) == candidates,
    decreases candidates.len(),
{
    if candidates.len() > 0 {
        let (o, r) = (candidates.drop_last(), responds.drop_last());
        lemma_responding_subset(o, r);
        let rest = responding(o, r);
        assert forall|x: A| responding(candidates, responds).contains(x) implies candidates.contains(x) by {
            let res = responding(candidates, responds);
            let j = choose|j: int| 0 <= j < res.len() && res[j] == x;
            if j < rest.len() {
                assert(rest[j] == x);
                assert(rest.contains(x));
                assert(o.contains(x));
                let k = choose|k: int| 0 <= k < o.len() && o[k] == x;
                assert(candidates[k] == x);
            } else {
                assert(candidates[candidates.len() - 1] == x);
            }
        }
        if forall|i: int| 0 <= i < responds.len() ==> responds[i] {
            assert forall|i: int| 0 <= i < r.len() implies r[i] by {
                assert(responds[i]);
            }
            assert(responds[responds.len() - 1]);
            assert(o.push(candidates.last()) =~= candidates);
        }
    }
}

/// One step of a delivery: after asking the candidate at `i`, the recipients
/// so far are those of the first `i + 1` candidates that responded; after the
/// last step they are all the recipients.
pub proof fn lemma_responding_step<A>(candidates: Seq<A>, responds: Seq<bool>, i: int)
    requires
        candidates.len() == responds.len(),
        0 <= i < candidates.len(),
    ensures
        responding(candidates.take(i + 1), responds.take(i + 1)) == (if responds[i] {
            responding(candidates.take(i), responds.take(i)).push(candidates[i])
        } else {
            responding(candidates.take(i), responds.take(i))
        }),
        responding(candidates.take(candidates.len() as int), responds.take(
            responds.len() as int,
        )) == responding(candidates, responds),
{
    assert(candidates.take(i + 1).drop_last() =~= candidates.take(i));
    assert(responds.take(i + 1).drop_last() =~= responds.take(i));
    assert(candidates.take(candidates.len() as int) =~= candidates);
    assert(responds.take(responds.len() as int) =~= responds);
}


} // verus!
