pub mod channel;
pub mod flatten;
pub mod iter;
pub mod lifetime;
pub mod map;
pub mod order;
pub mod sort;
