//! Maintenance engine for an in-memory pending-transaction queue.
//!
//! As new best blocks arrive, a maintainer keeps the queue consistent with
//! the canonical chain: transactions that sat only in retracted (reorged-out)
//! blocks are returned to the queue, transactions included in the newly
//! canonical block are pruned, and still-queued transactions are periodically
//! revalidated against current chain state.
//!
//! The queue itself, chain data access and the remote fetch are collaborators,
//! modelled here by small data-backed types whose contracts state exactly what
//! the maintainers rely on. Asynchronous plumbing (task composition, locking,
//! the wall clock) belongs to the embedding; the maintainers take the current
//! time as an argument and perform all derived work before returning.

pub mod chain;
pub mod laws;
pub mod maintainer;
pub mod queue;
pub mod scheduler;
pub mod types;
