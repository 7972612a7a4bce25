//! Building blocks for threads that share memory: a mutex, a condition
//! variable, a reader/writer lock and a spin lock, each as the protocol on
//! its atomic state word, with a model of the protocol and what holds of
//! every run of it. Beside them stand the small collaborators that the locks
//! are used with: a borrow flag, channels, a growable array, iterator
//! adaptors and sorters.
pub mod cell;
pub mod cond_var;
pub mod cond_var_model;
pub mod futex;
pub mod mutex;
pub mod mutex_model;
pub mod one_shot;
pub mod refcount;
pub mod rw_lock;
pub mod rw_lock_model;
pub mod safe;
pub mod spinlock;
pub mod vec;
