//! Release pages for a language that ships on a fixed cadence: the changelog
//! is read into versions with their notes and dates, reconciled with the
//! milestones that are still open, and rendered as weight-ordered pages.

pub mod changelog;
pub mod changelog_generator;
pub mod config;
pub mod date;
pub mod order;
pub mod phrase;
pub mod precedence;
pub mod reconcile;
pub mod records;
pub mod text;
pub mod tracker;
pub mod version;
pub mod version_manager;

pub use changelog_generator::ChangelogGenerator;
pub use config::Config;
pub use version_manager::VersionManager;
