//! Supervision of locally installed job runners: discovery of runner
//! directories, reconciliation of their run state from service-manager and
//! process signals, and validated start / stop / restart control.

pub mod text;
pub mod runner;
pub mod discovery;
pub mod probe;
pub mod control;
pub mod logs;
pub mod worker;
pub mod dashboard;
