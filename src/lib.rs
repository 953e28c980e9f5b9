//! Delay-coupled light-sail dynamics: the bookkeeping of a retarded-time
//! simulation.
//!
//! The simulation keeps an append-only trajectory history that is searched by
//! retarded time, and an append-only log of spectrum generations in which
//! every generation ends with the freshly injected laser line. Coefficients
//! of the sail material are tabulated against frequency. This crate holds
//! those logs and tables, the searches over them, the choice of feedback in
//! each step and the export layout; the arithmetic on physical quantities is
//! supplied by the caller through keys and line transforms.
pub mod time_key;
pub mod history;
pub mod spectrum;
pub mod table;
pub mod export;
pub mod mode;
