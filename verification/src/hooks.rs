//! Hooks around transaction dispatch.
//!
//! These traits let a runtime inject custom logic into its transaction
//! processing pipeline; the storage layer only fixes their shape.

use vstd::prelude::*;
use crate::storage::Storage;
use crate::working_set::WorkingSet;

verus! {

/// Represents a transaction after verification.
pub trait VerifiedTx {
    type Address;

    fn sender(&self) -> &Self::Address;

    fn runtime_message(&self) -> &[u8];
}

/// TxHooks allows injecting custom logic into a transaction processing
/// pipeline.
pub trait TxHooks {
    type Storage: Storage;

    type Transaction;

    type VerifiedTx: VerifiedTx;

    /// What a rejected transaction reports.
    type HookError;

    /// Runs just before a transaction is dispatched to an appropriate module.
    fn pre_dispatch_tx_hook(
        &mut self,
        tx: Self::Transaction,
        working_set: &mut WorkingSet<Self::Storage>,
    ) -> Result<Self::VerifiedTx, Self::HookError>;

    /// Runs after the transaction is dispatched to an appropriate module.
    fn post_dispatch_tx_hook(
        &mut self,
        tx: Self::VerifiedTx,
        working_set: &mut WorkingSet<Self::Storage>,
    );
}

} // verus!
