//! `SKPaymentQueue`, `SKPayment` and `SKPaymentTransaction` of an offline
//! StoreKit: every payment added to the queue becomes a purchased transaction
//! that is delivered to the queue's observers on the next run-loop turn.

use vstd::prelude::*;

use super::{Id, NIL};

verus! {

/// `SKPaymentTransactionStatePurchasing`.
pub const SK_PAYMENT_TRANSACTION_STATE_PURCHASING: i32 = 0;

/// `SKPaymentTransactionStatePurchased`.
pub const SK_PAYMENT_TRANSACTION_STATE_PURCHASED: i32 = 1;

/// `SKPaymentTransactionStateFailed`.
pub const SK_PAYMENT_TRANSACTION_STATE_FAILED: i32 = 2;

/// `SKPaymentTransactionStateRestored`.
pub const SK_PAYMENT_TRANSACTION_STATE_RESTORED: i32 = 3;

/// `+[SKPaymentQueue canMakePayments]`: payments are always allowed.
pub fn can_make_payments() -> (allowed: bool)
    ensures
        allowed,
{
    true
}

// ---------------------------------------------------------------------------
// SKPayment
// ---------------------------------------------------------------------------

/// The state of an `SKPayment` (or `SKMutablePayment`).
pub struct SKPaymentHostObject {
    /// `NSString*`, owned.
    pub product_identifier: Id,
    pub quantity: i32,
}

impl Default for SKPaymentHostObject {
    /// A freshly allocated payment: no product, quantity zero.
    fn default() -> (payment: SKPaymentHostObject)
        ensures
            payment.product_identifier == NIL,
            payment.quantity == 0,
    {
        SKPaymentHostObject { product_identifier: NIL, quantity: 0 }
    }
}

impl SKPaymentHostObject {
    /// `+[SKPayment paymentWithProduct:]`: a payment for one unit of the
    /// product whose identifier (an owned copy) is given.
    pub fn with_product(product_identifier: Id) -> (payment: SKPaymentHostObject)
        ensures
            payment.product_identifier == product_identifier,
            payment.quantity == 1,
    {
        SKPaymentHostObject { product_identifier, quantity: 1 }
    }

    /// `-[SKPayment productIdentifier]`.
    pub fn product_identifier(&self) -> (identifier: Id)
        ensures
            identifier == self.product_identifier,
    {
        self.product_identifier
    }

    /// `-[SKPayment quantity]`.
    pub fn quantity(&self) -> (quantity: i32)
        ensures
            quantity == self.quantity,
    {
        self.quantity
    }

    /// `-[SKPayment applicationUsername]`: never set.
    pub fn application_username(&self) -> (username: Id)
        ensures
            username == NIL,
    {
        NIL
    }

    /// `-[SKMutablePayment setQuantity:]`.
    pub fn set_quantity(&mut self, quantity: i32)
        ensures
            final(self).quantity == quantity,
            final(self).product_identifier == old(self).product_identifier,
    {
        self.quantity = quantity;
    }

    /// The objects that the payment owns and `-dealloc` releases.
    pub open spec fn owned(self) -> Seq<Id> {
        seq![self.product_identifier]
    }

    /// The objects that `-dealloc` releases.
    pub fn owned_objects(&self) -> (owned: Vec<Id>)
        ensures
            owned@ == self.owned(),
    {
        vec![self.product_identifier]
    }
}

// ---------------------------------------------------------------------------
// SKPaymentTransaction
// ---------------------------------------------------------------------------

/// The text of the identifier that every fabricated transaction carries.
pub fn mock_transaction_identifier() -> (identifier: &'static str)
    ensures
        identifier@ == "touchHLE-mock-transaction"@,
{
    "touchHLE-mock-transaction"
}

/// The state of an `SKPaymentTransaction`.
pub struct SKPaymentTransactionHostObject {
    /// `SKPayment*`, owned.
    pub payment: Id,
    /// `SKPaymentTransactionState`.
    pub state: i32,
    /// `NSString*`, owned.
    pub transaction_identifier: Id,
    /// `NSError*` (nil on success).
    pub error: Id,
    /// `SKPaymentTransaction*` (nil unless restored).
    pub original_transaction: Id,
    /// `NSDate*` (nil is acceptable).
    pub transaction_date: Id,
}

impl Default for SKPaymentTransactionHostObject {
    /// A freshly allocated transaction: every field zero or nil.
    fn default() -> (transaction: SKPaymentTransactionHostObject)
        ensures
            transaction.payment == NIL,
            transaction.state == SK_PAYMENT_TRANSACTION_STATE_PURCHASING,
            transaction.transaction_identifier == NIL,
            transaction.error == NIL,
            transaction.original_transaction == NIL,
            transaction.transaction_date == NIL,
    {
        SKPaymentTransactionHostObject {
            payment: NIL,
            state: SK_PAYMENT_TRANSACTION_STATE_PURCHASING,
            transaction_identifier: NIL,
            error: NIL,
            original_transaction: NIL,
            transaction_date: NIL,
        }
    }
}

impl SKPaymentTransactionHostObject {
    /// The transaction that `-[SKPaymentQueue addPayment:]` fabricates: the
    /// payment (retained) purchased at once, with the given identifier
    /// (retained), no error, no original transaction and no date.
    pub fn purchased(payment: Id, transaction_identifier: Id) -> (transaction:
        SKPaymentTransactionHostObject)
        ensures
            transaction.payment == payment,
            transaction.state == SK_PAYMENT_TRANSACTION_STATE_PURCHASED,
            transaction.transaction_identifier == transaction_identifier,
            transaction.error == NIL,
            transaction.original_transaction == NIL,
            transaction.transaction_date == NIL,
    {
        let mut transaction = SKPaymentTransactionHostObject::default();
        transaction.payment = payment;
        transaction.state = SK_PAYMENT_TRANSACTION_STATE_PURCHASED;
        transaction.transaction_identifier = transaction_identifier;
        transaction
    }

    /// `-[SKPaymentTransaction payment]`.
    pub fn payment(&self) -> (payment: Id)
        ensures
            payment == self.payment,
    {
        self.payment
    }

    /// `-[SKPaymentTransaction transactionState]`.
    pub fn transaction_state(&self) -> (state: i32)
        ensures
            state == self.state,
    {
        self.state
    }

    /// `-[SKPaymentTransaction transactionIdentifier]`.
    pub fn transaction_identifier(&self) -> (identifier: Id)
        ensures
            identifier == self.transaction_identifier,
    {
        self.transaction_identifier
    }

    /// `-[SKPaymentTransaction transactionDate]`.
    pub fn transaction_date(&self) -> (date: Id)
        ensures
            date == self.transaction_date,
    {
        self.transaction_date
    }

    /// `-[SKPaymentTransaction error]`.
    pub fn error(&self) -> (error: Id)
        ensures
            error == self.error,
    {
        self.error
    }

    /// `-[SKPaymentTransaction originalTransaction]`.
    pub fn original_transaction(&self) -> (original: Id)
        ensures
            original == self.original_transaction,
    {
        self.original_transaction
    }

    /// The objects that the transaction owns, in the order `-dealloc`
    /// releases them.
    pub open spec fn owned(self) -> Seq<Id> {
        seq![
            self.payment,
            self.transaction_identifier,
            self.error,
            self.original_transaction,
            self.transaction_date,
        ]
    }

    /// The objects that `-[SKPaymentQueue addPayment:]` retains for the
    /// transaction it builds: the payment and the identifier string.
    pub open spec fn retained(self) -> Seq<Id> {
        seq![self.payment, self.transaction_identifier]
    }

    /// The objects that `-dealloc` releases, in the order it releases them.
    pub fn owned_objects(&self) -> (owned: Vec<Id>)
        ensures
            owned@ == self.owned(),
    {
        vec![
            self.payment,
            self.transaction_identifier,
            self.error,
            self.original_transaction,
            self.transaction_date,
        ]
    }

    /// The objects to retain when the transaction is built.
    pub fn retained_on_creation(&self) -> (retained: Vec<Id>)
        ensures
            retained@ == self.retained(),
    {
        vec![self.payment, self.transaction_identifier]
    }
}

// ---------------------------------------------------------------------------
// SKPaymentQueue
// ---------------------------------------------------------------------------

/// The abstract state of a payment queue.
pub struct PaymentQueueView {
    /// Registered transaction observers, in registration order (weak).
    pub observers: Seq<Id>,
    /// In-flight transactions, oldest first (owned until finished).
    pub transactions: Seq<Id>,
}

/// The state of an `SKPaymentQueue`.
pub struct SKPaymentQueueHostObject {
    /// Transaction observers, weak (StoreKit does not retain observers).
    observers: Vec<Id>,
    /// In-flight `SKPaymentTransaction*`s, owned until finished.
    transactions: Vec<Id>,
}

impl View for SKPaymentQueueHostObject {
    type V = PaymentQueueView;

    closed spec fn view(&self) -> PaymentQueueView {
        PaymentQueueView { observers: self.observers@, transactions: self.transactions@ }
    }
}

/// `observers` after registering `observer`: appended unless registered.
pub open spec fn with_observer(observers: Seq<Id>, observer: Id) -> Seq<Id> {
    if observers.contains(observer) {
        observers
    } else {
        observers.push(observer)
    }
}

/// `observers` with every occurrence of `observer` taken out, the others kept
/// in order.
pub open spec fn without_observer(observers: Seq<Id>, observer: Id) -> Seq<Id> {
    observers.filter(|o: Id| o != observer)
}

/// The callback that a queue operation schedules for the next run-loop turn
/// (through `performSelector:withObject:afterDelay:0`).
#[derive(PartialEq, Eq, Structural, Clone, Copy, Debug)]
pub enum QueueCallback {
    /// Tell the observers that the transaction was updated.
    UpdatedTransaction(Id),
    /// Tell the observers that the transaction was removed, then drop it.
    RemovedTransaction(Id),
    /// Tell the observers that restoring completed transactions finished.
    RestoreFinished,
}

impl QueueCallback {
    /// The transaction that the callback carries, which the observers are
    /// sent in a one-element array.
    pub fn transaction(&self) -> (transaction: Option<Id>)
        ensures
            transaction == (match *self {
                QueueCallback::UpdatedTransaction(t) => Some(t),
                QueueCallback::RemovedTransaction(t) => Some(t),
                QueueCallback::RestoreFinished => None,
            }),
    {
        match self {
            QueueCallback::UpdatedTransaction(t) => Some(*t),
            QueueCallback::RemovedTransaction(t) => Some(*t),
            QueueCallback::RestoreFinished => None,
        }
    }

    /// The host selector that the run loop calls back on the queue.
    pub fn trampoline_selector(&self) -> (selector: &'static str)
        ensures
            self is UpdatedTransaction ==> selector@ == "touchHLE_deliverUpdatedTransaction:"@,
            self is RemovedTransaction ==> selector@ == "touchHLE_deliverRemovedTransaction:"@,
            self is RestoreFinished ==> selector@ == "touchHLE_deliverRestoreFinished:"@,
    {
        match self {
            QueueCallback::UpdatedTransaction(_) => "touchHLE_deliverUpdatedTransaction:",
            QueueCallback::RemovedTransaction(_) => "touchHLE_deliverRemovedTransaction:",
            QueueCallback::RestoreFinished => "touchHLE_deliverRestoreFinished:",
        }
    }

    /// The `SKPaymentTransactionObserver` selector that the callback sends to
    /// each observer that responds to it.
    pub fn observer_selector(&self) -> (selector: &'static str)
        ensures
            self is UpdatedTransaction ==> selector@ == "paymentQueue:updatedTransactions:"@,
            self is RemovedTransaction ==> selector@ == "paymentQueue:removedTransactions:"@,
            self is RestoreFinished ==> selector@
                == "paymentQueueRestoreCompletedTransactionsFinished:"@,
    {
        match self {
            QueueCallback::UpdatedTransaction(_) => "paymentQueue:updatedTransactions:",
            QueueCallback::RemovedTransaction(_) => "paymentQueue:removedTransactions:",
            QueueCallback::RestoreFinished => "paymentQueueRestoreCompletedTransactionsFinished:",
        }
    }
}

impl SKPaymentQueueHostObject {
    /// Well-formedness: an observer is registered at most once.
    pub open spec fn wf(&self) -> bool {
        self@.observers.no_duplicates()
    }

    /// A freshly allocated queue: no observers, no transactions.
    pub fn new() -> (queue: SKPaymentQueueHostObject)
        ensures
            queue.wf(),
            queue@.observers == Seq::<Id>::empty(),
            queue@.transactions == Seq::<Id>::empty(),
    {
        SKPaymentQueueHostObject { observers: Vec::new(), transactions: Vec::new() }
    }

    /// `-[SKPaymentQueue addTransactionObserver:]`: registers the observer
    /// unless it is registered already.
    pub fn add_transaction_observer(&mut self, observer: Id)
        requires
            old(self).wf(),
        ensures
            final(self).wf(),
            final(self)@.observers == with_observer(old(self)@.observers, observer),
            !old(self)@.observers.contains(observer) ==> final(self)@.observers == old(
                self,
            )@.observers + seq![observer],
            old(self)@.observers.contains(observer) ==> final(self)@.observers == old(
                self,
            )@.observers,
            final(self)@.transactions == old(self)@.transactions,
    {
        let n = self.observers.len();
        let mut i: usize = 0;
        while i < n
            invariant
                n == self.observers.len(),
                i <= n,
                self.observers@ == old(self).observers@,
                self.observers@.no_duplicates(),
                self.transactions@ == old(self).transactions@,
                forall|j: int| 0 <= j < i ==> self.observers@[j] != observer,
            decreases n - i,
        {
            if self.observers[i] == observer {
                proof {
                    assert(self.observers@.contains(observer));
                }
                return;
            }
            i = i + 1;
        }
        proof {
            assert(!self.observers@.contains(observer));
        }
        self.observers.push(observer);
        proof {
            lemma_push_absent_no_duplicates(old(self).observers@, observer);
        }
    }

    /// `-[SKPaymentQueue removeTransactionObserver:]`: unregisters the
    /// observer; the other observers keep their order.
    pub fn remove_transaction_observer(&mut self, observer: Id)
        requires
            old(self).wf(),
        ensures
            final(self).wf(),
            final(self)@.observers == without_observer(old(self)@.observers, observer),
            forall|i: int|
                0 <= i < old(self)@.observers.len() && old(self)@.observers[i] == observer
                    ==> final(self)@.observers == old(self)@.observers.take(i) + old(
                    self,
                )@.observers.skip(i + 1),
            !old(self)@.observers.contains(observer) ==> final(self)@.observers == old(
                self,
            )@.observers,
            final(self)@.transactions == old(self)@.transactions,
    {
        let ghost all = self.observers@;
        let n = self.observers.len();
        let mut kept: Vec<Id> = Vec::new();
        for i in 0..n
            invariant
                n == self.observers.len(),
                self.observers@ == all,
                all.no_duplicates(),
                kept@ == without_observer(all.take(i as int), observer),
                kept@.no_duplicates(),
                forall|x: Id| kept@.contains(x) ==> all.take(i as int).contains(x),
        {
            proof {
                reveal_with_fuel(Seq::<_>::filter, 1);
                assert(all.take(i + 1).drop_last() =~= all.take(i as int));
                assert(all.take(i + 1).last() == all[i as int]);
            }
            let o = self.observers[i];
            if o != observer {
                proof {
                    assert forall|x: Id| kept@.contains(x) implies x != o by {
                        let j = choose|j: int| 0 <= j < i && all.take(i as int)[j] == x;
                        assert(all[j] == x);
                    }
                }
                let ghost before = kept@;
                assert(!before.contains(o));
                kept.push(o);
                proof {
                    assert forall|a: int, b: int|
                        0 <= a < kept@.len() && 0 <= b < kept@.len() && a != b implies kept@[a]
                        != kept@[b] by {
                        if a < before.len() && b < before.len() {
                            assert(before[a] != before[b]);
                        } else if a < before.len() {
                            assert(before.contains(before[a]));
                        } else {
                            assert(before.contains(before[b]));
                        }
                    }
                    assert forall|x: Id| kept@.contains(x) implies all.take(i + 1).contains(x) by {
                        if x == o {
                            assert(all.take(i + 1)[i as int] == o);
                        } else {
                            let j = choose|j: int| 0 <= j < kept@.len() && kept@[j] == x;
                            assert(before.contains(x)) by {
                                assert(before[j] == x);
                            }
                            let k = choose|k: int| 0 <= k < i && all.take(i as int)[k] == x;
                            assert(all.take(i + 1)[k] == x);
                        }
                    }
                }
            } else {
                proof {
                    assert forall|x: Id| kept@.contains(x) implies all.take(i + 1).contains(x) by {
                        let k = choose|k: int| 0 <= k < i && all.take(i as int)[k] == x;
                        assert(all.take(i + 1)[k] == x);
                    }
                }
            }
        }
        proof {
            assert(all.take(n as int) =~= all);
            assert forall|i: int| 0 <= i < all.len() && all[i] == observer implies without_observer(
                all,
                observer,
            ) == all.take(i) + all.skip(i + 1) by {
                lemma_remove_registered_observer(all, observer, i);
            }
            if !all.contains(observer) {
                lemma_remove_absent_observer(all, observer);
            }
        }
        self.observers = kept;
    }

    /// A snapshot of the registered observers, which a delivery walks.
    pub fn observers(&self) -> (observers: Vec<Id>)
        ensures
            observers@ == self@.observers,
    {
        self.observers.clone()
    }

    /// `-[SKPaymentQueue transactions]`: the in-flight transactions.
    pub fn transactions(&self) -> (transactions: Vec<Id>)
        ensures
            transactions@ == self@.transactions,
    {
        self.transactions.clone()
    }

    /// `-[SKPaymentQueue addPayment:]`, once the purchased transaction is
    /// made: the queue takes the transaction and schedules its delivery to
    /// the observers.
    pub fn add_payment(&mut self, transaction: Id) -> (callback: QueueCallback)
        requires
            old(self).wf(),
        ensures
            final(self).wf(),
            final(self)@.transactions == old(self)@.transactions.push(transaction),
            final(self)@.observers == old(self)@.observers,
            callback == QueueCallback::UpdatedTransaction(transaction),
    {
        self.transactions.push(transaction);
        QueueCallback::UpdatedTransaction(transaction)
    }

    /// `-[SKPaymentQueue finishTransaction:]`: schedules the removal of the
    /// transaction; the queue changes only when the callback runs.
    pub fn finish_transaction(&self, transaction: Id) -> (callback: QueueCallback)
        ensures
            callback == QueueCallback::RemovedTransaction(transaction),
    {
        QueueCallback::RemovedTransaction(transaction)
    }

    /// `-[SKPaymentQueue restoreCompletedTransactions]`: there is nothing to
    /// restore offline, so only the end of restoring is scheduled.
    pub fn restore_completed_transactions(&self) -> (callback: QueueCallback)
        ensures
            callback == QueueCallback::RestoreFinished,
    {
        QueueCallback::RestoreFinished
    }

    /// The end of `touchHLE_deliverRemovedTransaction:`: drops the first
    /// occurrence of the finished transaction and hands it back when it is to
    /// be released (a non-nil object); an unknown transaction changes
    /// nothing.
    pub fn remove_transaction(&mut self, transaction: Id) -> (released: Option<Id>)
        requires
            old(self).wf(),
        ensures
            final(self).wf(),
            final(self)@.transactions == old(self)@.transactions.remove_value(transaction),
            final(self)@.observers == old(self)@.observers,
            released == (if old(self)@.transactions.contains(transaction) && transaction != NIL {
                Some(transaction)
            } else {
                None
            }),
    {
        let ghost all = self.transactions@;
        proof {
            all.index_of_first_ensures(transaction);
        }
        let n = self.transactions.len();
        let mut i: usize = 0;
        while i < n
            invariant
                n == self.transactions.len(),
                i <= n,
                self.transactions@ == all,
                self.observers@ == old(self).observers@,
                self.observers@.no_duplicates(),
                all == old(self).transactions@,
                forall|j: int| 0 <= j < i ==> all[j] != transaction,
                match all.index_of_first(transaction) {
                    Some(index) => {
                        &&& all.contains(transaction)
                        &&& 0 <= index < all.len()
                        &&& all[index] == transaction
                        &&& forall|j: int| 0 <= j < index < all.len() ==> all[j] != transaction
                    },
                    None => !all.contains(transaction),
                },
            decreases n - i,
        {
            if self.transactions[i] == transaction {
                proof {
                    assert(all.contains(transaction));
                    let index = all.index_of_first(transaction).unwrap();
                    assert(index == i as int);
                }
                let released = self.transactions.remove(i);
                if released == NIL {
                    return None;
                }
                return Some(released);
            }
            i = i + 1;
        }
        proof {
            assert(!all.contains(transaction));
        }
        None
    }
}

// ---------------------------------------------------------------------------
// Delivering a queue callback
// ---------------------------------------------------------------------------

/// The abstract state of a delivery in progress.
pub struct ObserverDeliveryView {
    pub callback: QueueCallback,
    /// The observers registered when the delivery began.
    pub observers: Seq<Id>,
    /// How many of them have been asked.
    pub position: nat,
}

/// A `touchHLE_deliver…` callback in progress. It walks the snapshot of the
/// observers: each is asked whether it responds to the callback's selector
/// and, if it does, is sent that selector before the next one is asked. Once
/// every observer was asked, a removed transaction is dropped from the queue.
pub struct ObserverDelivery {
    callback: QueueCallback,
    observers: Vec<Id>,
    position: usize,
}

impl View for ObserverDelivery {
    type V = ObserverDeliveryView;

    closed spec fn view(&self) -> ObserverDeliveryView {
        ObserverDeliveryView {
            callback: self.callback,
            observers: self.observers@,
            position: self.position as nat,
        }
    }
}

impl ObserverDelivery {
    /// Well-formedness: the position lies within the snapshot.
    pub open spec fn wf(&self) -> bool {
        self@.position <= self@.observers.len()
    }

    /// Begins delivering the callback to the queue's current observers.
    pub fn new(queue: &SKPaymentQueueHostObject, callback: QueueCallback) -> (delivery:
        ObserverDelivery)
        ensures
            delivery.wf(),
            delivery@.callback == callback,
            delivery@.observers == queue@.observers,
            delivery@.position == 0,
    {
        ObserverDelivery { callback, observers: queue.observers(), position: 0 }
    }

    /// The observer to ask next, or `None` once every observer was asked.
    pub fn next_observer(&self) -> (observer: Option<Id>)
        requires
            self.wf(),
        ensures
            observer == (if self@.position < self@.observers.len() {
                Some(self@.observers[self@.position as int])
            } else {
                None
            }),
    {
        if self.position < self.observers.len() {
            Some(self.observers[self.position])
        } else {
            None
        }
    }

    /// Takes the answer of the observer asked last: it is to be sent the
    /// callback's selector exactly when it responds to it.
    pub fn answer(&mut self, responds: bool) -> (send_to: Option<Id>)
        requires
            old(self).wf(),
            old(self)@.position < old(self)@.observers.len(),
        ensures
            final(self).wf(),
            final(self)@.callback == old(self)@.callback,
            final(self)@.observers == old(self)@.observers,
            final(self)@.position == old(self)@.position + 1,
            send_to == (if responds {
                Some(old(self)@.observers[old(self)@.position as int])
            } else {
                None
            }),
    {
        let observer = self.observers[self.position];
        let n = self.observers.len();
        proof {
            assert(self.position < n);
        }
        self.position = self.position + 1;
        if responds {
            Some(observer)
        } else {
            None
        }
    }

    /// The arguments of the message to each observer: the queue and, when
    /// the callback carries a transaction, the array that holds it.
    pub fn arguments(&self, queue: Id, array: Id) -> (arguments: Vec<Id>)
        ensures
            arguments@ == (if self@.callback is RestoreFinished {
                seq![queue]
            } else {
                seq![queue, array]
            }),
    {
        match self.callback {
            QueueCallback::RestoreFinished => vec![queue],
            _ => vec![queue, array],
        }
    }

    /// Ends the delivery once every observer was asked: a removed transaction
    /// leaves the queue, and is handed back when it is to be released.
    pub fn finish(&self, queue: &mut SKPaymentQueueHostObject) -> (released: Option<Id>)
        requires
            self.wf(),
            self@.position == self@.observers.len(),
            old(queue).wf(),
        ensures
            final(queue).wf(),
            final(queue)@.observers == old(queue)@.observers,
            match self@.callback {
                QueueCallback::RemovedTransaction(t) => {
                    &&& final(queue)@.transactions == old(queue)@.transactions.remove_value(t)
                    &&& released == (if old(queue)@.transactions.contains(t) && t != NIL {
                        Some(t)
                    } else {
                        None
                    })
                },
                _ => {
                    &&& final(queue)@.transactions == old(queue)@.transactions
                    &&& released is None
                },
            },
    {
        match self.callback {
            QueueCallback::RemovedTransaction(t) => queue.remove_transaction(t),
            _ => None,
        }
    }
}

// ---------------------------------------------------------------------------
// Laws
// ---------------------------------------------------------------------------

/// Appending an element that does not occur keeps a sequence free of
/// duplicates.
pub proof fn lemma_push_absent_no_duplicates(s: Seq<Id>, x: Id)
    requires
        s.no_duplicates(),
        !s.contains(x),
    ensures
        s.push(x).no_duplicates(),
{
    assert forall|a: int, b: int|
        0 <= a < s.push(x).len() && 0 <= b < s.push(x).len() && a != b implies s.push(x)[a]
        != s.push(x)[b] by {
        if a < s.len() && b < s.len() {
        } else if a < s.len() {
            assert(s.contains(s[a]));
        } else {
            assert(s.contains(s[b]));
        }
    }
}

/// Registering an observer twice is the same as registering it once.
pub proof fn lemma_add_observer_idempotent(observers: Seq<Id>, observer: Id)
    ensures
        with_observer(with_observer(observers, observer), observer) == with_observer(
            observers,
            observer,
        ),
        with_observer(observers, observer).contains(observer),
{
    if !observers.contains(observer) {
        assert(observers.push(observer)[observers.len() as int] == observer);
    }
}

/// Taking out an observer that is not registered changes nothing.
pub proof fn lemma_remove_absent_observer(observers: Seq<Id>, observer: Id)
    requires
        !observers.contains(observer),
    ensures
        without_observer(observers, observer) == observers,
    decreases observers.len(),
{
    reveal_with_fuel(Seq::<_>::filter, 1);
    if observers.len() > 0 {
        assert(!observers.drop_last().contains(observer)) by {
            if observers.drop_last().contains(observer) {
                let j = choose|j: int|
                    0 <= j < observers.drop_last().len() && observers.drop_last()[j] == observer;
                assert(observers[j] == observer);
            }
        }
        lemma_remove_absent_observer(observers.drop_last(), observer);
        assert(observers.drop_last().push(observers.last()) =~= observers);
    }
}

/// Removing an observer undoes registering it: a queue that did not have the
/// observer gets its observer list back, in order.
pub proof fn lemma_remove_undoes_add_observer(observers: Seq<Id>, observer: Id)
    requires
        !observers.contains(observer),
    ensures
        without_observer(with_observer(observers, observer), observer) == observers,
{
    reveal_with_fuel(Seq::<_>::filter, 1);
    assert(observers.push(observer).drop_last() =~= observers);
    lemma_remove_absent_observer(observers, observer);
}

/// After removal the observer is no longer registered, and every other
/// registered observer still is.
pub proof fn lemma_remove_observer_effect(observers: Seq<Id>, observer: Id, other: Id)
    ensures
        !without_observer(observers, observer).contains(observer),
        observers.contains(other) && other != observer ==> without_observer(
            observers,
            observer,
        ).contains(other),
{
    broadcast use vstd::seq_lib::group_filter_ensures;

    let pred = |o: Id| o != observer;
    if without_observer(observers, observer).contains(observer) {
        let j = choose|j: int|
            0 <= j < without_observer(observers, observer).len() && without_observer(
                observers,
                observer,
            )[j] == observer;
        observers.lemma_filter_pred(pred, j);
    }
    if observers.contains(other) && other != observer {
        let j = choose|j: int| 0 <= j < observers.len() && observers[j] == other;
        observers.lemma_filter_contains(pred, j);
    }
}

/// Removing a finished transaction undoes adding it: a queue that did not
/// hold the transaction gets its transaction list back.
pub proof fn lemma_remove_undoes_add_payment(transactions: Seq<Id>, transaction: Id)
    requires
        !transactions.contains(transaction),
    ensures
        transactions.push(transaction).remove_value(transaction) == transactions,
        transactions.push(transaction).contains(transaction),
{
    let pushed = transactions.push(transaction);
    assert(pushed[transactions.len() as int] == transaction);
    pushed.index_of_first_ensures(transaction);
    let index = pushed.index_of_first(transaction).unwrap();
    if index < transactions.len() {
        assert(transactions[index] == transaction);
    }
    assert(pushed.remove(index) =~= transactions);
}

/// Finishing a transaction that the queue does not hold leaves its
/// transactions as they were.
pub proof fn lemma_remove_unknown_transaction(transactions: Seq<Id>, transaction: Id)
    requires
        !transactions.contains(transaction),
    ensures
        transactions.remove_value(transaction) == transactions,
{
    transactions.index_of_first_ensures(transaction);
}

/// Every object a purchased transaction releases on `-dealloc` was either
/// retained when the transaction was built, or is one of the fields that a
/// purchased transaction leaves nil.
pub proof fn lemma_transaction_ownership(payment: Id, transaction_identifier: Id)
    ensures
        ({
            let t = SKPaymentTransactionHostObject {
                payment,
                state: SK_PAYMENT_TRANSACTION_STATE_PURCHASED,
                transaction_identifier,
                error: NIL,
                original_transaction: NIL,
                transaction_date: NIL,
            };
            t.owned() == t.retained() + seq![NIL, NIL, NIL]
        }),
{
    let t = SKPaymentTransactionHostObject {
        payment,
        state: SK_PAYMENT_TRANSACTION_STATE_PURCHASED,
        transaction_identifier,
        error: NIL,
        original_transaction: NIL,
        transaction_date: NIL,
    };
    assert(t.owned() =~= t.retained() + seq![NIL, NIL, NIL]);
}

/// Registering an observer that is not registered yet appends it after all
/// the others, so it is notified last; registering one that is registered
/// changes nothing.
pub proof fn lemma_add_observer_appends(observers: Seq<Id>, observer: Id)
    ensures
        !observers.contains(observer) ==> with_observer(observers, observer) == observers + seq![
            observer,
        ],
        observers.contains(observer) ==> with_observer(observers, observer) == observers,
{
    assert(observers.push(observer) =~= observers + seq![observer]);
}

/// Removing a registered observer (registered once) takes it out of its place
/// and leaves the observers before it and after it in their order: the
/// result is the list up to it followed by the list after it.
pub proof fn lemma_remove_registered_observer(observers: Seq<Id>, observer: Id, i: int)
    requires
        observers.no_duplicates(),
        0 <= i < observers.len(),
        observers[i] == observer,
    ensures
        without_observer(observers, observer) == observers.take(i) + observers.skip(i + 1),
{
    let pred = |o: Id| o != observer;
    let a = observers.take(i);
    let b = observers.skip(i + 1);
    let one = seq![observer];
    assert(observers =~= a + one + b);
    assert(!a.contains(observer)) by {
        if a.contains(observer) {
            let j = choose|j: int| 0 <= j < a.len() && a[j] == observer;
            assert(observers[j] == observers[i]);
        }
    }
    assert(!b.contains(observer)) by {
        if b.contains(observer) {
            let j = choose|j: int| 0 <= j < b.len() && b[j] == observer;
            assert(observers[j + i + 1] == observers[i]);
        }
    }
    lemma_remove_absent_observer(a, observer);
    lemma_remove_absent_observer(b, observer);
    Seq::filter_distributes_over_add(a + one, b, pred);
    Seq::filter_distributes_over_add(a, one, pred);
    reveal_with_fuel(Seq::<_>::filter, 2);
    assert(one.drop_last() =~= Seq::<Id>::empty());
    assert(one.filter(pred) =~= Seq::<Id>::empty());
    assert(a + Seq::<Id>::empty() =~= a);
}

} // verus!
