//! Focus-time tracking: window titles become process identities, focus
//! changes become accruals, and accruals add up in a ledger keyed by day and
//! identity.

pub mod duration;
pub mod ledger;
pub mod logic;
pub mod match_title;
pub mod order;
pub mod pattern;
pub mod startup;
pub mod text;
