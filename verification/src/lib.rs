//! Random key (password) generation from three ASCII character classes:
//! letters, punctuation and digits. Counts are arbitrary-precision, so a
//! request may ask for more characters than fit a machine word; generation
//! splits each count into bounded chunks, fills every chunk with uniform
//! random draws from the class pool, and shuffles the concatenation into
//! the final key.

pub mod assemble;
pub mod big;
pub mod chars;
pub mod chunk;
pub mod errors;
pub mod pools;
pub mod randkey;
pub mod shuffle;
pub mod strutil;

pub use chars::ASCIIExcludeCtrl;
pub use errors::GenError;
pub use randkey::{RandKey, SetRandKeyOp, ToRandKey};
