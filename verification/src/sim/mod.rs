pub mod backend;
pub mod hw;
pub mod model;
pub mod period;
