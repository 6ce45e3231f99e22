use vstd::prelude::*;

verus! {

broadcast use vstd::std_specs::vec::group_vec_axioms, vstd::seq::group_seq_axioms;

/// One of the four logic states a signal can take.
#[derive(Clone, Copy, Debug, PartialEq, Eq, Structural)]
pub enum Value {
    /// Logic low, written `0`.
    V0,
    /// Logic high, written `1`.
    V1,
    /// Unknown, written `x` or `X`.
    X,
    /// High impedance, written `z` or `Z`.
    Z,
}

/// Short code that ties a variable declaration to its value changes.
#[derive(Clone, Copy, Debug, PartialEq, Eq, Structural, Hash)]
pub struct IdCode(pub u64);

/// Kind of a `$scope` declaration.
#[derive(Clone, Copy, Debug, PartialEq, Eq, Structural)]
pub enum ScopeType {
    Module,
    Task,
    Function,
    Begin,
    Fork,
}

/// Type of a `$var` declaration.
#[derive(Clone, Copy, Debug, PartialEq, Eq, Structural)]
pub enum VarType {
    Event,
    Integer,
    Parameter,
    Real,
    Reg,
    Supply0,
    Supply1,
    Time,
    Tri,
    TriAnd,
    TriOr,
    TriReg,
    Tri0,
    Tri1,
    WAnd,
    Wire,
    WOr,
}

/// Unit of the `$timescale` declaration.
#[derive(Clone, Copy, Debug, PartialEq, Eq, Structural)]
pub enum TimescaleUnit {
    S,
    MS,
    US,
    NS,
    PS,
    FS,
}

/// Which bracketed simulation command is open.
#[derive(Clone, Copy, Debug, PartialEq, Eq, Structural)]
pub enum SimulationCommand {
    Dumpall,
    Dumpoff,
    Dumpon,
    Dumpvars,
}

/// Why reading failed.
#[derive(Clone, Copy, Debug, PartialEq, Eq, Structural)]
pub enum Error {
    /// Input ended where more was required.
    UnexpectedEof,
    /// A token is longer than the buffer it is read into.
    TokenTooLong,
    /// A text field is not well-formed UTF-8.
    InvalidUtf8,
    /// Unknown command keyword, scope type, variable type or timescale unit.
    InvalidKeyword,
    /// A numeric field is not a number in range.
    InvalidNumber,
    /// A byte outside `0 1 x X z Z` where a logic value was expected.
    InvalidValue,
    /// An identifier code holds a byte outside `!`..`~`, or is too large.
    InvalidIdCode,
    /// `$end` where a field was expected.
    UnexpectedEnd,
    /// A command is not closed by `$end`.
    ExpectedEnd,
    /// `$end` with no simulation command open.
    UnmatchedEnd,
    /// A line starts with a byte that begins no command.
    UnexpectedCharacter,
    /// A command that cannot stand inside `$scope`.
    UnexpectedCommandInScope,
    /// Input ended inside `$scope`.
    UnexpectedEofInScope,
    /// A command that cannot stand in the header.
    UnexpectedCommandInHeader,
    /// Input ended before `$enddefinitions`.
    UnexpectedEofInHeader,
    /// Scopes are nested deeper than the parser allows.
    ScopeTooDeep,
}

impl Error {
    /// Short description of the failure.
    pub fn message(&self) -> &'static str {
        match self {
            Error::UnexpectedEof => "Unexpected EOF",
            Error::TokenTooLong => "Token too long",
            Error::InvalidUtf8 => "Invalid UTF8",
            Error::InvalidKeyword => "Invalid keyword",
            Error::InvalidNumber => "Invalid number",
            Error::InvalidValue => "Invalid value",
            Error::InvalidIdCode => "Invalid IdCode",
            Error::UnexpectedEnd => "Unexpected $end",
            Error::ExpectedEnd => "Expected $end",
            Error::UnmatchedEnd => "Unmatched $end",
            Error::UnexpectedCharacter => "Unexpected character",
            Error::UnexpectedCommandInScope => "Unexpected command in $scope",
            Error::UnexpectedEofInScope => "Unexpected EOF in $scope",
            Error::UnexpectedCommandInHeader => "Unexpected command in header",
            Error::UnexpectedEofInHeader => "Unexpected EOF in header",
            Error::ScopeTooDeep => "Scopes nested too deep",
        }
    }
}

/// A declared variable.
#[derive(Clone, Debug, PartialEq)]
pub struct Var {
    pub var_type: VarType,
    pub size: u32,
    pub code: IdCode,
    pub reference: String,
}

/// An entry of a scope, in declaration order.
#[derive(Debug, PartialEq)]
pub enum ScopeItem {
    Scope(Scope),
    Var(Var),
}

/// A named group of variables and nested scopes.
#[derive(Debug, PartialEq)]
pub struct Scope {
    pub scope_type: ScopeType,
    pub identifier: String,
    pub children: Vec<ScopeItem>,
}

/// What the header of a file declares.
#[derive(Debug, PartialEq)]
pub struct Header {
    pub comment: Option<String>,
    pub date: Option<String>,
    pub version: Option<String>,
    pub timescale: Option<(u32, TimescaleUnit)>,
    pub scope: Scope,
}

/// One parsed unit of the input.
#[derive(Clone, Debug, PartialEq)]
pub enum Command {
    Comment(String),
    Date(String),
    Version(String),
    Timescale(u32, TimescaleUnit),
    ScopeDef(ScopeType, String),
    Upscope,
    VarDef(VarType, u32, IdCode, String),
    Enddefinitions,
    Begin(SimulationCommand),
    End(SimulationCommand),
    Timestamp(u64),
    ChangeScalar(IdCode, Value),
    ChangeVector(IdCode, Vec<Value>),
    /// A real value, kept as the decimal text it is written in.
    ChangeReal(IdCode, String),
    ChangeString(IdCode, String),
}

/// A `Command` with its text as characters and its vectors as sequences.
pub enum CommandModel {
    Comment(Seq<char>),
    Date(Seq<char>),
    Version(Seq<char>),
    Timescale(u32, TimescaleUnit),
    ScopeDef(ScopeType, Seq<char>),
    Upscope,
    VarDef(VarType, u32, IdCode, Seq<char>),
    Enddefinitions,
    Begin(SimulationCommand),
    End(SimulationCommand),
    Timestamp(u64),
    ChangeScalar(IdCode, Value),
    ChangeVector(IdCode, Seq<Value>),
    ChangeReal(IdCode, Seq<char>),
    ChangeString(IdCode, Seq<char>),
}

impl View for Command {
    type V = CommandModel;

    open spec fn view(&self) -> CommandModel {
        match self {
            Command::Comment(s) => CommandModel::Comment(s@),
            Command::Date(s) => CommandModel::Date(s@),
            Command::Version(s) => CommandModel::Version(s@),
            Command::Timescale(n, u) => CommandModel::Timescale(*n, *u),
            Command::ScopeDef(t, s) => CommandModel::ScopeDef(*t, s@),
            Command::Upscope => CommandModel::Upscope,
            Command::VarDef(t, n, c, s) => CommandModel::VarDef(*t, *n, *c, s@),
            Command::Enddefinitions => CommandModel::Enddefinitions,
            Command::Begin(c) => CommandModel::Begin(*c),
            Command::End(c) => CommandModel::End(*c),
            Command::Timestamp(t) => CommandModel::Timestamp(*t),
            Command::ChangeScalar(c, v) => CommandModel::ChangeScalar(*c, *v),
            Command::ChangeVector(c, v) => CommandModel::ChangeVector(*c, v@),
            Command::ChangeReal(c, s) => CommandModel::ChangeReal(*c, s@),
            Command::ChangeString(c, s) => CommandModel::ChangeString(*c, s@),
        }
    }
}

/// A scope item with its text as characters.
pub enum ItemModel {
    Scope(ScopeModel),
    Var(VarType, u32, IdCode, Seq<char>),
}

/// A scope with its text as characters and its items as a sequence.
pub struct ScopeModel {
    pub scope_type: ScopeType,
    pub identifier: Seq<char>,
    pub children: Seq<ItemModel>,
}

pub open spec fn scope_model(sc: Scope) -> ScopeModel
    decreases sc,
{
    ScopeModel {
        scope_type: sc.scope_type,
        identifier: sc.identifier@,
        children: items_model(sc.children@),
    }
}

pub open spec fn items_model(v: Seq<ScopeItem>) -> Seq<ItemModel>
    decreases v,
{
    Seq::new(
        v.len(),
        |i: int|
            if 0 <= i < v.len() {
                item_model(v[i])
            } else {
                arbitrary()
            },
    )
}

pub open spec fn item_model(it: ScopeItem) -> ItemModel
    decreases it,
{
    match it {
        ScopeItem::Scope(sc) => ItemModel::Scope(scope_model(sc)),
        ScopeItem::Var(v) => ItemModel::Var(v.var_type, v.size, v.code, v.reference@),
    }
}

} // verus!
