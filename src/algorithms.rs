//! The four page-replacement policies.
pub mod fifo;
pub mod lru;
pub mod optimal;
pub mod second_chance;

pub use self::fifo::Fifo;
pub use self::lru::Lru;
pub use self::optimal::Optimal;
pub use self::second_chance::SecondChance;
