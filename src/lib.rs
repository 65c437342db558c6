//! Verified core of a netlist-driven guitar-pedal circuit simulator: the
//! netlist lexer and parser, the numbering of nodes and branches and the
//! layout of the nodal system's unknowns, the ring buffers of the digital
//! delay lines, and the framing of the audio sample pipe.
//!
//! The numerical engine (device models, matrix solve, Newton iteration)
//! computes in floating point and lives with the host program; it reads
//! value texts, node ids and branch ids from the structures here.

mod ast;
mod audio;
mod circuit;
mod controls;
mod error;
mod lexer;
mod parser;
mod plan;
mod ring;
mod types;
mod value;

pub use types::{BranchId, ComponentId, NodeId, VarIndex};
pub use error::DslError;
pub use lexer::{Lexer, Token, TokenKind, TokenStream};
pub use ast::{BjtType, ComponentType, LfoShape, ModelType};
pub use parser::{
    classify_header, component_header, ComponentHeader, ComponentSyntax, Directive, ModelParam,
    ModelSyntax, NetlistSyntax, Param, ParamValue, Parser, parse,
};
pub use ring::SampleRing;
pub use circuit::NodeTable;
pub use controls::Switch;
pub use audio::{le_bytes_from_words, words_from_le_bytes, BUFFER_SIZE};
pub use value::{float_syntax, is_value};
pub use plan::{
    check_references, plan_circuit, validate_topology, CircuitPlan, ComponentPlan, PlanError,
    ReferenceError, TopologyError,
};
