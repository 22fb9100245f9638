//! Verified core of a system monitor: the sensor-tree search and value
//! extraction, and the selection and bookkeeping rules applied to the
//! metrics that the host program gathers.

pub mod text;
pub mod sensor;
pub mod cpu;
pub mod ranking;
pub mod connections;
pub mod network;
pub mod disks;
pub mod schedule;
pub mod script;
