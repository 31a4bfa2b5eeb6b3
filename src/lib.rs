//! A formatter for Solidity source: it walks a parsed source unit and writes
//! it out with normalized indentation, spacing, wrapping and blank lines.
use vstd::prelude::*;

pub mod config;
pub mod laws;
mod outside;
pub mod text;
pub mod tree;
pub mod visit;
pub mod writer;

pub use config::FormatterConfig;
pub use outside::version_req_text;
pub use tree::{
    ContractDefinition, ContractPart, ContractTy, DocComment, EnumDefinition, FunctionDefinition,
    FunctionTy, ImportRename, Loc, SourceUnit, SourceUnitPart, VariableDefinition,
};
pub use writer::Formatter;

verus! {

/// Formats a whole file whose spans point into `source`; nothing where a span
/// runs outside the source.
pub fn format(source: String, unit: &SourceUnit, config: FormatterConfig) -> (r: Option<String>)
    ensures
        r.is_some() == unit.wf(source@.len()),
        r matches Some(t) ==> t@ == visit::units_state(
            writer::initial_state(),
            config,
            source@,
            unit.parts@,
            unit.parts@.len(),
        ).out,
{
    if !unit.spans_within(source.unicode_len()) {
        return None;
    }
    let mut f = Formatter::new(source, config);
    f.visit_source_unit(unit);
    Some(f.into_output())
}

} // verus!
