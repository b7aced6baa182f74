use vstd::prelude::*;

pub mod assoc;
pub mod config;
pub mod formats;
pub mod headers;
pub mod json;
pub mod middleware;
pub mod models;
pub mod protocols;
pub mod proxy;
pub mod text;
pub mod views;

verus! {
}
