//! Time tracking and invoicing logic for a freelancer's desktop tool:
//! time entries, activity aggregation, invoice planning and their text formats.

pub mod text;
pub mod clock;
pub mod models;
pub mod entries;
pub mod order;
pub mod tracker;
pub mod activity;
pub mod invoice;
pub mod export;
pub mod backup;
pub mod settings;
pub mod ai;
pub mod fakturoid;
pub mod secrets;
