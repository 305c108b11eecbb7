pub mod arrival_order;
pub mod arrivals;
pub mod discipline;
pub mod multilevel;
pub mod ordering;
pub mod process;
pub mod ready_queue;
pub mod simulator;
