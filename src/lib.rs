//! Client-side validation state for a registration form: field values, keyed
//! validation messages, and the derived submit-eligibility flag.
pub mod notifications;
pub mod form;
