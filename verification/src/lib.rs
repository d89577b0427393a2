//! An offline StoreKit model: the payment queue, payments, transactions and
//! product requests of an emulated iOS StoreKit, with their rules proved.

pub mod store_kit;
