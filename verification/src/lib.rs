//! A memory-pressure-aware concurrent preloader for game launches: while a
//! target command runs, the working set of its installation (the game
//! directory, its shader cache, and, under a compatibility layer, the
//! layer's support files) is walked, and each file is pinned into physical
//! memory if a shared budget against a free-memory snapshot admits it.
//!
//! This crate holds every decision of that system, verified: the admission
//! budget and its reserve floor ([`MemBudget`]), the pinned-region resource
//! whose release is consuming and therefore unrepeatable ([`PinnedRegion`]),
//! the walk over candidate paths as an explicit work queue ([`Preloader`]),
//! the detection of the installation layout and application id from the
//! launch arguments ([`ditect_steam_game`], [`ditect_app_id`], [`plan_run`]),
//! and the precedence between the command's outcome and a preload failure
//! ([`resolve_outcome`]). The filesystem inspection, the mapping system
//! calls and the process handling around these decisions are left to the
//! embedding program.

mod budget;
mod outcome;
mod plan;
mod preload;
mod region;
mod steam;
mod strutil;

pub use budget::MemBudget;
pub use plan::PlanError;
pub use plan::RunPlan;
pub use plan::plan_preload;
pub use plan::plan_run;
pub use steam::SteamGame;
pub use steam::ditect_app_id;
pub use steam::ditect_steam_game;
pub use outcome::CommandResult;
pub use outcome::RunReport;
pub use outcome::resolve_outcome;
pub use budget::RESERVE_FLOOR;
pub use preload::PathKind;
pub use preload::Preloader;
pub use preload::VisitStep;
pub use region::PinnedRegion;
pub use region::release_all;
