pub mod fixed;
pub mod grid;
pub mod search;
pub mod sim;
pub mod time_series;

pub use fixed::CAP;
pub use fixed::FACTOR_SCALE;
pub use fixed::SCALE;
pub use grid::Range;
pub use search::ConstantMix;
pub use search::FractionMap;
pub use sim::AllocationPolicy;
pub use sim::Backtest;
pub use sim::FixedAllocation;
pub use sim::ScanError;
