//! regin: verified decision core of an autonomous Linux operator.

pub mod approval;
pub mod audit;
pub mod bus;
pub mod chair;
pub mod config;
pub mod context;
pub mod control_loop;
pub mod decision;
pub mod deputy;
pub mod desired;
pub mod escalation;
pub mod escalation_routing;
pub mod evaluate;
pub mod event_bus;
pub mod filters;
pub mod foreman;
pub mod goal;
pub mod greeting;
pub mod guardrail;
pub mod identity;
pub mod intent;
pub mod json;
pub mod monitor;
pub mod overlay;
pub mod persona;
pub mod render;
pub mod text;
pub mod types;
pub mod worker;
