//! Variation operators for one bounded real-valued gene of an evolutionary optimizer:
//! simulated binary crossover and polynomial mutation.
//!
//! The library holds no floating-point code. A double-precision number is held as its
//! IEEE 754 bit pattern ([`Double`]), and only what is exact is computed on it: comparing,
//! clamping, the draw from the random source and the base of each formula's power. The
//! rounding arithmetic is left to the host. Each operator therefore comes in two parts: a
//! plan that checks the gene and the draw and tells the host what to evaluate, and the
//! operator itself, which takes the numbers the host computed and decides what the gene
//! becomes.

pub mod candidate;
pub mod double;
pub mod source;

pub use candidate::{
    CandidateF64, CrossoverPlan, GeneError, MutationPlan, Pull, Spread, CROSSOVER_INDEX,
    MUTATION_INDEX,
};
pub use double::Double;
pub use source::{draw, draw_of_word, is_unit_draw};
