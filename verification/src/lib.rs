//! Verified request-handling logic of an IoT thing-model platform:
//! validation of requests, decisions of the device webhooks and admin
//! endpoints, broker access control, sign-in helpers and device shadows.
use vstd::prelude::*;

pub mod admin_handlers;
pub mod admin_models;
pub mod alarm_handlers;
pub mod alarm_models;
pub mod auth_handlers;
pub mod clock;
pub mod ca_handlers;
pub mod error;
pub mod factory_handlers;
pub mod factory_middleware;
pub mod handlers;
pub mod json;
pub mod middleware;
pub mod oauth;
pub mod openapi;
pub mod ota_handlers;
pub mod product_handlers;
pub mod schema;
pub mod shadow;
pub mod text;
pub mod utils;

verus! {

} // verus!
