//! Decisions of a disaster alert subscription service.
pub mod admin_subscriptions;
pub mod api;
pub mod auth;
pub mod deliveries;
pub mod device_key;
pub mod events;
pub mod headers;
pub mod incident;
pub mod json;
pub mod limited_body;
pub mod matching;
pub mod models;
pub mod outbound_log;
pub mod provider_values;
pub mod reverse_geocoder;
pub mod simulate;
pub mod simulate_requests;
pub mod source_registry;
pub mod storage;
pub mod subscribe;
pub mod text;
pub mod timestamp;
pub mod urls;
