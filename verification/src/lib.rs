use vstd::prelude::*;

pub mod json;
pub mod decrypt;
pub mod growthbook;
pub mod cache;
pub mod client;
pub mod error;
pub mod feature;
pub mod sticky_bucket;
pub mod dto;
pub mod condition;
pub mod model_public;
pub mod range;
pub mod hash;
pub mod text;


