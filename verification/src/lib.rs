//! A single static-analysis rule over parsed programs: it flags struct-literal
//! fields written out as `name: name`, where field-init shorthand would do,
//! and suggests the shorthand rewrite.
//!
//! The crate is organised along the pipeline the rule runs:
//! [`ast`] models the read-only syntax tree the host hands over, [`detect`]
//! decides which field initializers are redundant and builds the suggestion
//! for each, [`diagnostic`] is the record handed to the host's reporting
//! interface, [`pass`] walks the tree and drives the rule over every
//! expression, and [`lint`] describes the rule to the host's registry.

pub mod ast;
pub mod detect;
pub mod diagnostic;
pub mod lint;
pub mod pass;
