//! A 64-bit Feistel block cipher with four rounds and six caller-supplied
//! 32-bit subkeys, with its contracts and algebraic laws proved.

pub mod cipher;
pub mod halves;
pub mod mixing;

pub use cipher::{decrypt, encrypt, f_round};
pub use halves::{left, right};
pub use mixing::{f, g0, g1};
