//! Onboarding session engine: a verified state machine for time-boxed
//! staff-onboarding exercises, the lifecycle rules for the disposable
//! workspace bound to each session, the deterministic verification-challenge
//! algorithm that gates quiz submission, and the background reaper that
//! enforces timeouts.

pub mod api;
pub mod challenge;
pub mod crypto;
pub mod engine;
pub mod errors;
pub mod lifecycle;
pub mod session;
pub mod quiz;
pub mod reaper;
pub mod states;

pub use states::OnboardState;
