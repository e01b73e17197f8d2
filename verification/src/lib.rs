//! The order engine of a custom-seal storefront: creating an order exactly
//! once per idempotency key, taking in a payment provider's webhooks that may
//! arrive more than once and out of order, and moving orders through one
//! table of status transitions from every place that changes a status.
//!
//! The engine decides and computes; reading and writing the document store
//! is left to its caller. Every function states what it returns over the
//! views of its arguments, and the laws that tie several functions together
//! are proof functions beside them.

/// Status options, form fields and the checks of the admin console.
pub mod admin;
/// The locales that the storefront serves.
pub mod config;
/// The protocol by which an order is created once per idempotency key.
pub mod creation;
/// Digests, tags and hexadecimal text.
pub mod crypto;
/// Texts in several locales, and the choice among them.
pub mod locale;
/// The photos of a material and the form for a new material.
pub mod material;
/// Decimal numbers as text.
pub mod number;
/// Orders, their audit log, and the changes that an operator makes.
pub mod order;
/// The request to create an order: its normal form and its rules.
pub mod request;
/// The signature of a webhook.
pub mod signature;
/// The order statuses and the table of their transitions.
pub mod status;
/// Storage paths, bucket names and image types.
pub mod storage;
/// The choices and checks of the storefront's pages.
pub mod storefront;
/// Characters and strings.
pub mod text;
/// The grammars of the fields of a request.
pub mod validation;
/// Payment events and what they do to an order.
pub mod webhook;
