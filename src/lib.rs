//! Value Change Dump (VCD) reader: a byte-level tokenizer, a command decoder
//! and a scope-tree builder, each stated against a model of the input bytes.

mod laws;
mod lex;
mod model;
mod read;
mod types;

pub use laws::{
    lemma_malformed_changes_fail, lemma_scope_declaration_order, lemma_simulation_brackets,
    lemma_text_field_content, lemma_unmatched_end_fails,
};
pub use lex::{
    parse_decimal, parse_id_code, parse_scope_type, parse_timescale_unit, parse_value,
    parse_var_type, whitespace_byte,
};
pub use model::{header_from, header_model, scope_items, step, HeaderModel, Step};
pub use read::{Parser, MAX_SCOPE_DEPTH};
pub use types::{
    Command, CommandModel, Error, Header, IdCode, ItemModel, Scope, ScopeItem, ScopeModel,
    ScopeType, SimulationCommand, TimescaleUnit, Value, Var, VarType,
};
