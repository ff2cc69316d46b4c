//! Exact Ackermann–Péter values over arbitrary-precision naturals.
//!
//! The computation goes through the hyperoperation hierarchy
//! (successor, addition, multiplication, exponentiation, tetration, ...):
//! recursion runs over the order of the hyperoperation only, while the
//! exponent dimension is handled by iteration, so the call depth is bounded
//! by the first Ackermann argument instead of growing with the result.
//!
//! Intermediate values grow astronomically even for small arguments; running
//! out of memory or call stack is inherent to the domain.

pub mod big;
pub mod power;
pub mod hyper;
pub mod ackermann;

pub use ackermann::A;
pub use big::big_value;
pub use power::pow;
pub use hyper::hyper_op;
