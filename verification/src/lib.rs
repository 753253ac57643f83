//! A fan-league service for a reality-competition game show: administrators
//! manage seasons, contestants and elimination state; players join leagues
//! and submit ranked picks per round.
//!
//! The storage semantics — identifiers assigned by ascending sequences,
//! uniqueness and foreign-key constraints, cascading deletes, the pick
//! upsert — are modelled exactly by [`store::Store`], whose every operation
//! carries a contract over its mathematical view. The manager layer in
//! [`user_manager`] and [`gameshow_manager`] adds the mutate-then-refresh
//! calls and the rule that a medevac is recorded only after its elimination.
//! [`laws`] states and proves the properties the whole store obeys;
//! [`routes`], [`codec`] and [`portal`] pin down, byte for byte, the
//! requests the client portal builds.

pub mod codec;
pub mod gameshow_manager;
pub mod handlers;
pub mod laws;
pub mod portal;
pub mod records;
pub mod routes;
pub mod store;
pub mod text;
pub mod user_manager;
