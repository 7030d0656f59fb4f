//! Event-driven core of a home-automation controller: a device store with
//! change detection, an edge-triggered routine/rule matcher, a message
//! dispatcher, and a reconciliation-worker supervisor, all with verified
//! contracts over mathematical models of their state.

pub mod action;
pub mod device;
pub mod devices_manager;
pub mod dim;
pub mod group;
pub mod hue;
pub mod kvmap;
pub mod message;
pub mod random;
pub mod rule;
pub mod rules;
pub mod scene;
pub mod supervisor;
pub mod tuya;
