//! Synchronisation and object-linkage core of a small embedded kernel.
//!
//! - `intrusive`: field-offset adapters that locate a field inside its host
//!   object, and their nested and relative compositions.
//! - `rwlock`, `spinlock`, `irq`: reader/writer spinlocks, owning or embedded
//!   in the object they guard, optionally masking interrupts for the length of
//!   a critical section.
//! - `exclusion`: mutual exclusion of the lock over every interleaving of
//!   threads.
//! - `tinyarc`, `unique_list`: reference-counted nodes linked into an
//!   intrusive list, and a list paired with the lock that guards it.
//!
//! Every operation is one step of a state machine with an exact contract. A
//! lock acquisition that would have to wait for another party is not taken
//! here: its precondition asks that the lock can be granted at once.
pub mod exclusion;
pub mod intrusive;
pub mod irq;
pub mod rwlock;
pub mod spinlock;
pub mod tinyarc;
pub mod unique_list;
