//! The xpay runtime module, with the doughnut certificate checks: items for
//! sale, the bills of diners, profiles, and what a purchase pays.
pub mod types;
pub mod storage;
pub mod xpay_diner;
pub mod xpay_profile;
pub mod xpay;
pub mod codec;
pub mod doughnut;
pub mod laws;
pub mod behaviour;
