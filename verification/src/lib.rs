//! Procedural text generation with grammatical gender agreement.
//!
//! A [`Generator`] holds a table of symbols, each bound to a list of candidate
//! variant strings.  Expanding a symbol picks one variant at random, resolves
//! nested `{symbol}` and `{{symbol}}` references, applies gender agreement
//! markup (`[m]`/`[f]`/`[n]` markers, dot and slash forms) and capitalization
//! inherited from the spelling of each reference site.

pub mod engine;
pub mod errors;
pub mod escape;
pub mod gender;
pub mod generator;
pub mod rng;
pub mod scan;
pub mod table;
pub mod text;

pub use errors::Error;
pub use gender::Gender;
pub use generator::Generator;
