//! Generation logic for three compile-time code generators: a builder
//! derive, a custom debug derive and a sequence-repetition macro.
//!
//! The generators work on plain descriptions of the syntax they are given
//! and hand back token trees; the front end that talks to the compiler
//! turns real syntax into these descriptions and the token trees back.

pub mod attrs;
pub mod behaviour;
pub mod bounds;
pub mod builder;
pub mod debug;
pub mod model;
pub mod number;
pub mod seq;
pub mod shape;
pub mod syntax;
pub mod tokens;
