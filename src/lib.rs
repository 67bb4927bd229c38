//! Reconciles the declared labels and milestones of repositories with the
//! state that the issue tracker reports, and classifies pull-request titles.
pub mod commands;
pub mod config;
pub mod context;
pub mod labels;
pub mod milestones;
pub mod pagination;
pub mod prefix;
pub mod run;
