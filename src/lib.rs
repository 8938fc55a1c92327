//! A scheduled-mail message store and the decisions of its periodic dispatcher.
pub mod config;
pub mod database;
pub mod email_service;
pub mod message;
pub mod response;
pub mod timestamp;

pub use config::{AppConfig, Credentials};
pub use database::{Database, StoreError};
pub use email_service::{Delivery, EMAIL_SUBJECT, record_delivery, scheduled_deliveries};
pub use message::Message;
pub use response::Response;
pub use timestamp::Timestamp;
