//! Process guardian core: the configuration model, the bookkeeping of the
//! daemon manager, health-check decisions and log tailing, all verified.

pub mod config;
pub mod sys;
pub mod logs;
pub mod logger;
pub mod daemon;
pub mod job_object;
pub mod laws;
