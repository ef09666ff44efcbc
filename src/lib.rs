//! Reconciles a guest check-in sheet against its "registered" marker column,
//! validates each unregistered guest and frames the fixed-width export file
//! and the notification e-mail.
pub mod text;
pub mod guest;
pub mod reservation;
pub mod unlfile;
pub mod email;
pub mod listing;
