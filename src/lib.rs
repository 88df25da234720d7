//! Page-replacement simulation: FIFO, LRU, Second-Chance and Optimal page
//! tables, the simulation that replays a trace of page requests through one
//! of them, and the bookkeeping of a sweep over a range of table sizes.
pub mod algorithms;
pub mod error;
pub mod parse;
pub mod simulation;
pub mod sweep;
pub mod table;
pub mod util;

pub use crate::algorithms::lru::{LruPage, PageMinMax};
pub use crate::algorithms::second_chance::SecondChancePage;
pub use crate::algorithms::{Fifo, Lru, Optimal, SecondChance};
pub use crate::error::Error;
pub use crate::simulation::{parse_trace, AlgorithmKind, AlgorithmType, HitRate, Simulation};
pub use crate::sweep::{collect_results, table_sizes, SizeResult};
pub use crate::util::validate_table_size;
