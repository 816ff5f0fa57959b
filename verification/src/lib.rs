//! Fast-Fourier trapdoor sampling for lattice signatures: the Gram matrix of
//! a secret basis in frequency-domain form, its recursive LDL* schedule
//! tree, normalization of that tree to a target standard deviation, and the
//! top-down Gaussian sampler that walks it.

pub mod scalar;
pub mod poly;
pub mod fft;
pub mod tree;
pub mod sampling;
