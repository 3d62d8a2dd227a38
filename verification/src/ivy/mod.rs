pub mod signal;

pub use signal::Signal;
