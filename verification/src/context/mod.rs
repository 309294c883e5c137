//! What a compilation shares: its sources, its interned names and the
//! diagnostics it has reported.

pub mod symbol_interner;

pub mod compilation_context;
