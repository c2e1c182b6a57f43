//! Signed arbitrary-precision integers for group arithmetic in cryptographic
//! protocols: modular exponentiation and inverse, safe primes, and uniform
//! sampling in a range. The numbers are held and computed by OpenSSL's
//! `BIGNUM` engine; this library fixes what each operation means.
//!
//! - `number`, `arithmetic`, `text`, `random`, `primality` and `order` hold
//!   `BigNumber` and its operations. Each contract is stated over the integer
//!   that a number holds, its view.
//! - `arith` and `encoding` define the mathematics of the contracts, `laws`
//!   states what holds of the operations together, and `lemmas` holds the
//!   facts that the proofs rest on.
//! - `engine` is the boundary to OpenSSL, and `error` the failures reported.
//!
//! Conventions: the byte form is the big-endian magnitude without sign, and
//! zero is written as no bytes at all; hexadecimal is written in upper case
//! and in whole bytes; every operation that needs scratch space takes fresh
//! space from the engine for the one call.

pub mod arith;
pub mod arithmetic;
pub mod encoding;
pub mod engine;
pub mod error;
pub mod laws;
pub mod lemmas;
pub mod number;
pub mod order;
pub mod primality;
pub mod random;
pub mod text;
