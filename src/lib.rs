//! An embedded, statically typed expression language for audio gain and
//! spectral transforms: parsing, elaboration to de Bruijn indexed terms,
//! evaluation and ahead-of-time normalization.
pub mod lang;
