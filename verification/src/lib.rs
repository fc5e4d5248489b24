//! Printer discovery, setup and status logic for the COSMIC printers service.

pub mod text;
pub mod weburl;
pub mod uri;
pub mod localize;
pub mod strings;
pub mod state_reason;
pub mod errors;
pub mod queue;
pub mod server;
pub mod backend;
pub mod add_printer;
pub mod ipp;
pub mod client;
pub mod printers;
pub mod configure;
pub mod devices;
pub mod notify;
pub mod drivers;
pub mod entry;
pub mod reconcile;
pub mod details;
pub mod application;
pub mod create;
pub mod configuration;
pub mod probe;
pub mod scan;
pub mod device_id;
pub mod identity;
pub mod round;
pub mod memory;
pub mod subscription;
pub mod destinations;
pub mod endpoints;
pub mod list;
pub mod details_page;
pub mod queue_selection;
pub mod queue_page;
