use lib::store_kit::sk_payment_queue::{
    can_make_payments, mock_transaction_identifier, ObserverDelivery, QueueCallback,
    SKPaymentHostObject, SKPaymentQueueHostObject, SKPaymentTransactionHostObject,
    SK_PAYMENT_TRANSACTION_STATE_FAILED, SK_PAYMENT_TRANSACTION_STATE_PURCHASED,
    SK_PAYMENT_TRANSACTION_STATE_PURCHASING, SK_PAYMENT_TRANSACTION_STATE_RESTORED,
};
use lib::store_kit::{Environment, FrameworkState, State, NIL};

#[test]
fn transaction_state_values() {
    assert_eq!(SK_PAYMENT_TRANSACTION_STATE_PURCHASING, 0);
    assert_eq!(SK_PAYMENT_TRANSACTION_STATE_PURCHASED, 1);
    assert_eq!(SK_PAYMENT_TRANSACTION_STATE_FAILED, 2);
    assert_eq!(SK_PAYMENT_TRANSACTION_STATE_RESTORED, 3);
}

#[test]
fn payments_are_always_allowed() {
    assert!(can_make_payments());
}

#[test]
fn default_queue_is_created_once() {
    let mut state = State::default();
    assert_eq!(state.existing_default_queue(), None);
    assert_eq!(state.install_default_queue(0x1000), 0x1000);
    assert_eq!(state.existing_default_queue(), Some(0x1000));
    assert_eq!(state.existing_default_queue(), Some(0x1000));
}

#[test]
fn state_get_reaches_the_store_kit_state() {
    let mut env = Environment { framework_state: FrameworkState { store_kit: State::default() } };
    assert_eq!(State::get(&mut env).install_default_queue(0x1234), 0x1234);
    assert_eq!(env.framework_state.store_kit.existing_default_queue(), Some(0x1234));
}

#[test]
fn payment_with_product_buys_one() {
    let mut payment = SKPaymentHostObject::with_product(0x40);
    assert_eq!(payment.product_identifier(), 0x40);
    assert_eq!(payment.quantity(), 1);
    assert_eq!(payment.application_username(), NIL);
    payment.set_quantity(5);
    assert_eq!(payment.quantity(), 5);
    assert_eq!(payment.product_identifier(), 0x40);
    assert_eq!(payment.owned_objects(), vec![0x40]);
}

#[test]
fn fresh_payment_is_empty() {
    let payment = SKPaymentHostObject::default();
    assert_eq!(payment.product_identifier, NIL);
    assert_eq!(payment.quantity, 0);
}

#[test]
fn fabricated_transaction_is_purchased() {
    let transaction = SKPaymentTransactionHostObject::purchased(0x50, 0x60);
    assert_eq!(transaction.payment(), 0x50);
    assert_eq!(transaction.transaction_state(), SK_PAYMENT_TRANSACTION_STATE_PURCHASED);
    assert_eq!(transaction.transaction_identifier(), 0x60);
    assert_eq!(transaction.error(), NIL);
    assert_eq!(transaction.original_transaction(), NIL);
    assert_eq!(transaction.transaction_date(), NIL);
    assert_eq!(transaction.owned_objects(), vec![0x50, 0x60, NIL, NIL, NIL]);
    assert_eq!(transaction.retained_on_creation(), vec![0x50, 0x60]);
    assert_eq!(mock_transaction_identifier(), "touchHLE-mock-transaction");
}

#[test]
fn fresh_transaction_is_empty() {
    let transaction = SKPaymentTransactionHostObject::default();
    assert_eq!(transaction.state, SK_PAYMENT_TRANSACTION_STATE_PURCHASING);
    assert_eq!(transaction.payment, NIL);
}

#[test]
fn observers_are_registered_once() {
    let mut queue = SKPaymentQueueHostObject::new();
    queue.add_transaction_observer(7);
    queue.add_transaction_observer(8);
    queue.add_transaction_observer(7);
    assert_eq!(queue.observers(), vec![7, 8]);
}

#[test]
fn removing_an_observer_keeps_the_others_in_order() {
    let mut queue = SKPaymentQueueHostObject::new();
    queue.add_transaction_observer(1);
    queue.add_transaction_observer(2);
    queue.add_transaction_observer(3);
    queue.remove_transaction_observer(2);
    assert_eq!(queue.observers(), vec![1, 3]);
    queue.remove_transaction_observer(9);
    assert_eq!(queue.observers(), vec![1, 3]);
}

#[test]
fn remove_undoes_add_observer() {
    let mut queue = SKPaymentQueueHostObject::new();
    queue.add_transaction_observer(4);
    queue.add_transaction_observer(5);
    queue.remove_transaction_observer(5);
    assert_eq!(queue.observers(), vec![4]);
}

#[test]
fn add_payment_schedules_an_update() {
    let mut queue = SKPaymentQueueHostObject::new();
    let callback = queue.add_payment(0x70);
    assert_eq!(callback, QueueCallback::UpdatedTransaction(0x70));
    assert_eq!(queue.transactions(), vec![0x70]);
    assert_eq!(queue.finish_transaction(0x70), QueueCallback::RemovedTransaction(0x70));
    assert_eq!(queue.transactions(), vec![0x70]);
    assert_eq!(queue.restore_completed_transactions(), QueueCallback::RestoreFinished);
}

#[test]
fn finished_transaction_is_removed_once() {
    let mut queue = SKPaymentQueueHostObject::new();
    queue.add_payment(0x70);
    queue.add_payment(0x80);
    queue.add_payment(0x70);
    assert_eq!(queue.remove_transaction(0x70), Some(0x70));
    assert_eq!(queue.transactions(), vec![0x80, 0x70]);
    assert_eq!(queue.remove_transaction(0x90), None);
    assert_eq!(queue.transactions(), vec![0x80, 0x70]);
}

#[test]
fn nil_transaction_is_removed_but_not_released() {
    let mut queue = SKPaymentQueueHostObject::new();
    queue.add_payment(NIL);
    queue.add_payment(0x10);
    assert_eq!(queue.remove_transaction(NIL), None);
    assert_eq!(queue.transactions(), vec![0x10]);
}

#[test]
fn remove_undoes_add_payment() {
    let mut queue = SKPaymentQueueHostObject::new();
    queue.add_payment(0x10);
    queue.add_payment(0x20);
    assert_eq!(queue.remove_transaction(0x20), Some(0x20));
    assert_eq!(queue.transactions(), vec![0x10]);
}

#[test]
fn callback_selectors() {
    let updated = QueueCallback::UpdatedTransaction(1);
    let removed = QueueCallback::RemovedTransaction(1);
    let restored = QueueCallback::RestoreFinished;
    assert_eq!(updated.trampoline_selector(), "touchHLE_deliverUpdatedTransaction:");
    assert_eq!(removed.trampoline_selector(), "touchHLE_deliverRemovedTransaction:");
    assert_eq!(restored.trampoline_selector(), "touchHLE_deliverRestoreFinished:");
    assert_eq!(updated.observer_selector(), "paymentQueue:updatedTransactions:");
    assert_eq!(removed.observer_selector(), "paymentQueue:removedTransactions:");
    assert_eq!(
        restored.observer_selector(),
        "paymentQueueRestoreCompletedTransactionsFinished:"
    );
}

fn run_delivery(
    queue: &mut SKPaymentQueueHostObject,
    callback: QueueCallback,
    responds: &[bool],
) -> (Vec<u32>, Option<u32>) {
    let mut delivery = ObserverDelivery::new(queue, callback);
    let mut sent = Vec::new();
    let mut asked = 0;
    while let Some(observer) = delivery.next_observer() {
        assert_eq!(observer, queue.observers()[asked]);
        if let Some(target) = delivery.answer(responds[asked]) {
            sent.push(target);
        }
        asked += 1;
    }
    (sent, delivery.finish(queue))
}

#[test]
fn only_responding_observers_are_notified() {
    let mut queue = SKPaymentQueueHostObject::new();
    for observer in [1, 2, 3, 4] {
        queue.add_transaction_observer(observer);
    }
    queue.add_payment(0x70);
    let (sent, released) =
        run_delivery(&mut queue, QueueCallback::UpdatedTransaction(0x70), &[true, false, false, true]);
    assert_eq!(sent, vec![1, 4]);
    assert_eq!(released, None);
    assert_eq!(queue.transactions(), vec![0x70]);
    let (sent, _) =
        run_delivery(&mut queue, QueueCallback::RestoreFinished, &[true, true, true, true]);
    assert_eq!(sent, vec![1, 2, 3, 4]);
}

#[test]
fn removed_transaction_is_dropped_after_notifying() {
    let mut queue = SKPaymentQueueHostObject::new();
    queue.add_transaction_observer(9);
    queue.add_payment(0x70);
    let (sent, released) =
        run_delivery(&mut queue, QueueCallback::RemovedTransaction(0x70), &[true]);
    assert_eq!(sent, vec![9]);
    assert_eq!(released, Some(0x70));
    assert!(queue.transactions().is_empty());
    let (_, released) = run_delivery(&mut queue, QueueCallback::RemovedTransaction(0x70), &[false]);
    assert_eq!(released, None);
}

#[test]
fn delivery_arguments() {
    let queue = SKPaymentQueueHostObject::new();
    let updated = ObserverDelivery::new(&queue, QueueCallback::UpdatedTransaction(5));
    assert_eq!(updated.arguments(0x100, 0x200), vec![0x100, 0x200]);
    let restored = ObserverDelivery::new(&queue, QueueCallback::RestoreFinished);
    assert_eq!(restored.arguments(0x100, 0x200), vec![0x100]);
    assert_eq!(restored.next_observer(), None);
    assert_eq!(QueueCallback::RemovedTransaction(5).transaction(), Some(5));
    assert_eq!(QueueCallback::RestoreFinished.transaction(), None);
}
