pub mod config;
pub mod date;
pub mod rotation;
pub mod router;
pub mod sink;
pub mod supervisor;

pub use config::CountMismatch;
pub use date::Date;
pub use rotation::RotationScheduler;
pub use router::{Action, ConnectionConfig, Filter};
pub use sink::SinkConfig;
pub use supervisor::{Command, Event, Phase, Supervisor};
