//! Research completion tracking for a journey-mode player profile.
//!
//! A catalogue lists every researchable item together with the number of
//! copies that must be sacrificed to unlock it. Joined against the counts a
//! player has already sacrificed, it yields a report of which entries are
//! complete and which are still missing.

pub mod args;
pub mod catalogue;
pub mod numeral;
pub mod report;
pub mod research_item;
pub mod resolver;
pub mod text;
