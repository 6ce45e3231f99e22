//! What the input bytes mean: each reading step as a function of the bytes,
//! the position reached and the simulation command left open.

use vstd::prelude::*;
use vstd::string::StringSliceAdditionalSpecFns;

use crate::lex::{
    decode_utf8, id_code_of, parse_uint, scope_type_of, skip_ws, timescale_unit_of, token_end,
    trimmed, value_of, var_type_of,
};
use crate::types::{
    item_model, items_model, scope_model, Command, CommandModel, Error, Header, IdCode, ItemModel,
    Scope, ScopeItem, ScopeModel, ScopeType, SimulationCommand, TimescaleUnit, Value,
};

verus! {

broadcast use vstd::std_specs::vec::group_vec_axioms, vstd::seq::group_seq_axioms;

/// Where reading resumes after a token that ends at `e`: past the whitespace
/// byte that closed it, if any.
pub open spec fn past(s: Seq<u8>, e: int) -> int {
    if e < s.len() {
        e + 1
    } else {
        e
    }
}

/// A whitespace-delimited token of at most `cap` bytes at or after `p`, and
/// the position after it.
pub open spec fn token(s: Seq<u8>, p: int, cap: int) -> Result<(Seq<u8>, int), Error> {
    let st = skip_ws(s, p);
    if st >= s.len() {
        Err(Error::UnexpectedEof)
    } else if token_end(s, st) - st > cap {
        Err(Error::TokenTooLong)
    } else {
        Ok((s.subrange(st, token_end(s, st)), past(s, token_end(s, st))))
    }
}

/// A token that holds a field of a command: at most 32 bytes, not `$end`,
/// well-formed text.
pub open spec fn field(s: Seq<u8>, p: int) -> Result<(Seq<u8>, int), Error> {
    match token(s, p, 32) {
        Err(e) => Err(e),
        Ok((t, q)) => if t == "$end".spec_bytes() {
            Err(Error::UnexpectedEnd)
        } else if decode_utf8(t) is None {
            Err(Error::InvalidUtf8)
        } else {
            Ok((t, q))
        },
    }
}

/// A token of any length, as text.
pub open spec fn word(s: Seq<u8>, p: int) -> Result<(Seq<char>, int), Error> {
    match token(s, p, s.len() as int) {
        Err(e) => Err(e),
        Ok((t, q)) => match decode_utf8(t) {
            Some(c) => Ok((c, q)),
            None => Err(Error::InvalidUtf8),
        },
    }
}

/// The `$end` that closes a command.
pub open spec fn command_end(s: Seq<u8>, p: int) -> Result<int, Error> {
    match token(s, p, 8) {
        Err(e) => Err(e),
        Ok((t, q)) => if t == "$end".spec_bytes() {
            Ok(q)
        } else {
            Err(Error::ExpectedEnd)
        },
    }
}

/// The bytes before `j` end in `$end`.
pub open spec fn end_marker(s: Seq<u8>, j: int) -> bool {
    4 <= j <= s.len() && s.subrange(j - 4, j) == "$end".spec_bytes()
}

/// The first `k >= j` such that the bytes before `k` end in `$end`, or -1.
pub open spec fn find_marker(s: Seq<u8>, j: int) -> int
    decreases s.len() + 1 - j,
{
    if j > s.len() {
        -1
    } else if end_marker(s, j) {
        j
    } else {
        find_marker(s, j + 1)
    }
}

/// Free text from `p` up to the first `$end`, trimmed, and the position after
/// the `$end`.
pub open spec fn text_field(s: Seq<u8>, p: int) -> Result<(Seq<char>, int), Error> {
    let j = find_marker(s, p + 4);
    if j < 0 {
        Err(Error::UnexpectedEof)
    } else {
        match decode_utf8(s.subrange(p, j - 4)) {
            None => Err(Error::InvalidUtf8),
            Some(c) => Ok((trimmed(c), j)),
        }
    }
}

/// The first index at or after `i` that holds no ASCII digit, or the length.
pub open spec fn first_non_digit(t: Seq<u8>, i: int) -> int
    decreases t.len() - i,
{
    if i >= t.len() {
        t.len() as int
    } else if 48 <= t[i] <= 57 {
        first_non_digit(t, i + 1)
    } else {
        i
    }
}

/// The logic values of a run of bytes, most significant first.
pub open spec fn values_of(t: Seq<u8>) -> Option<Seq<Value>> {
    if forall|i: int| 0 <= i < t.len() ==> value_of(#[trigger] t[i]) is Some {
        Some(Seq::new(t.len(), |i: int| value_of(t[i])->0))
    } else {
        None
    }
}

/// What one step of reading yields.
pub enum Step {
    /// The input holds nothing but whitespace.
    Done,
    /// Reading fails.
    Fail(Error),
    /// A command, the position after it and the open simulation command.
    Next(CommandModel, int, Option<SimulationCommand>),
}

/// A text command (`$comment`, `$date`, `$version`) whose keyword ends before `q`.
pub open spec fn text_command(
    s: Seq<u8>,
    q: int,
    o: Option<SimulationCommand>,
    k: Seq<u8>,
) -> Step {
    match text_field(s, q) {
        Err(e) => Step::Fail(e),
        Ok((c, q1)) => Step::Next(
            if k == "comment".spec_bytes() {
                CommandModel::Comment(c)
            } else if k == "date".spec_bytes() {
                CommandModel::Date(c)
            } else {
                CommandModel::Version(c)
            },
            q1,
            o,
        ),
    }
}

/// A timescale from its number and its unit.
pub open spec fn timescale_of(n: Seq<u8>, u: Seq<u8>) -> Result<(u32, TimescaleUnit), Error> {
    match parse_uint(n, u32::MAX as nat) {
        None => Err(Error::InvalidNumber),
        Some(v) => match timescale_unit_of(u) {
            None => Err(Error::InvalidKeyword),
            Some(unit) => Ok((v as u32, unit)),
        },
    }
}

/// The timescale command closed before `q`.
pub open spec fn timescale_step(
    r: Result<(u32, TimescaleUnit), Error>,
    q: int,
    o: Option<SimulationCommand>,
) -> Step {
    match r {
        Err(e) => Step::Fail(e),
        Ok((v, unit)) => Step::Next(CommandModel::Timescale(v, unit), q, o),
    }
}

/// `$timescale`: a number and a unit, either in one token (`100ns`) or in
/// two (`100 ns`), then `$end`.
pub open spec fn timescale_command(s: Seq<u8>, q: int, o: Option<SimulationCommand>) -> Step {
    match token(s, q, 8) {
        Err(e) => Step::Fail(e),
        Ok((t, q1)) => if decode_utf8(t) is None {
            Step::Fail(Error::InvalidUtf8)
        } else if first_non_digit(t, 0) < t.len() {
            let i = first_non_digit(t, 0);
            match command_end(s, q1) {
                Err(e) => Step::Fail(e),
                Ok(q3) => timescale_step(
                    timescale_of(t.subrange(0, i), t.subrange(i, t.len() as int)),
                    q3,
                    o,
                ),
            }
        } else {
            match token(s, q1, 8) {
                Err(e) => Step::Fail(e),
                Ok((u, q2)) => if decode_utf8(u) is None {
                    Step::Fail(Error::InvalidUtf8)
                } else {
                    match command_end(s, q2) {
                        Err(e) => Step::Fail(e),
                        Ok(q3) => timescale_step(timescale_of(t, u), q3, o),
                    }
                },
            }
        },
    }
}

/// `$scope`: a scope type, an identifier, then `$end`.
pub open spec fn scope_command(s: Seq<u8>, q: int, o: Option<SimulationCommand>) -> Step {
    match field(s, q) {
        Err(e) => Step::Fail(e),
        Ok((t, q1)) => match scope_type_of(t) {
            None => Step::Fail(Error::InvalidKeyword),
            Some(st) => match word(s, q1) {
                Err(e) => Step::Fail(e),
                Ok((id, q2)) => match command_end(s, q2) {
                    Err(e) => Step::Fail(e),
                    Ok(q3) => Step::Next(CommandModel::ScopeDef(st, id), q3, o),
                },
            },
        },
    }
}

/// `$var`: a type, a positive width, an identifier code, a name, then `$end`.
pub open spec fn var_command(s: Seq<u8>, q: int, o: Option<SimulationCommand>) -> Step {
    match field(s, q) {
        Err(e) => Step::Fail(e),
        Ok((t, q1)) => match var_type_of(t) {
            None => Step::Fail(Error::InvalidKeyword),
            Some(vt) => match field(s, q1) {
                Err(e) => Step::Fail(e),
                Ok((n, q2)) => match parse_uint(n, u32::MAX as nat) {
                    None => Step::Fail(Error::InvalidNumber),
                    Some(size) => if size == 0 {
                        Step::Fail(Error::InvalidNumber)
                    } else {
                        match field(s, q2) {
                            Err(e) => Step::Fail(e),
                            Ok((c, q3)) => match id_code_of(c) {
                                None => Step::Fail(Error::InvalidIdCode),
                                Some(code) => match word(s, q3) {
                                    Err(e) => Step::Fail(e),
                                    Ok((r, q4)) => match command_end(s, q4) {
                                        Err(e) => Step::Fail(e),
                                        Ok(q5) => Step::Next(
                                            CommandModel::VarDef(vt, size as u32, code, r),
                                            q5,
                                            o,
                                        ),
                                    },
                                },
                            },
                        }
                    },
                },
            },
        },
    }
}

/// A command that is its keyword and `$end` alone.
pub open spec fn bare_command(
    s: Seq<u8>,
    q: int,
    o: Option<SimulationCommand>,
    c: CommandModel,
) -> Step {
    match command_end(s, q) {
        Err(e) => Step::Fail(e),
        Ok(q1) => Step::Next(c, q1, o),
    }
}

/// The simulation command a keyword opens.
pub open spec fn simulation_command_of(k: Seq<u8>) -> Option<SimulationCommand> {
    if k == "dumpall".spec_bytes() {
        Some(SimulationCommand::Dumpall)
    } else if k == "dumpoff".spec_bytes() {
        Some(SimulationCommand::Dumpoff)
    } else if k == "dumpon".spec_bytes() {
        Some(SimulationCommand::Dumpon)
    } else if k == "dumpvars".spec_bytes() {
        Some(SimulationCommand::Dumpvars)
    } else {
        None
    }
}

/// A command introduced by `$`, whose `$` ends before `q`.
#[verifier::opaque]
pub open spec fn dollar_command(s: Seq<u8>, q: int, o: Option<SimulationCommand>) -> Step {
    match token(s, q, 16) {
        Err(e) => Step::Fail(e),
        Ok((k, q1)) => if k == "comment".spec_bytes() || k == "date".spec_bytes() || k
            == "version".spec_bytes() {
            text_command(s, q1, o, k)
        } else if k == "timescale".spec_bytes() {
            timescale_command(s, q1, o)
        } else if k == "scope".spec_bytes() {
            scope_command(s, q1, o)
        } else if k == "upscope".spec_bytes() {
            bare_command(s, q1, o, CommandModel::Upscope)
        } else if k == "var".spec_bytes() {
            var_command(s, q1, o)
        } else if k == "enddefinitions".spec_bytes() {
            bare_command(s, q1, o, CommandModel::Enddefinitions)
        } else if simulation_command_of(k) is Some {
            let c = simulation_command_of(k)->0;
            Step::Next(CommandModel::Begin(c), q1, Some(c))
        } else if k == "end".spec_bytes() {
            match o {
                Some(c) => Step::Next(CommandModel::End(c), q1, None),
                None => Step::Fail(Error::UnmatchedEnd),
            }
        } else {
            Step::Fail(Error::InvalidKeyword)
        },
    }
}

/// A timestamp, whose `#` ends before `q`.
#[verifier::opaque]
pub open spec fn timestamp_command(s: Seq<u8>, q: int, o: Option<SimulationCommand>) -> Step {
    match field(s, q) {
        Err(e) => Step::Fail(e),
        Ok((t, q1)) => match parse_uint(t, u64::MAX as nat) {
            None => Step::Fail(Error::InvalidNumber),
            Some(n) => Step::Next(CommandModel::Timestamp(n as u64), q1, o),
        },
    }
}

/// The identifier code that ends a value change, and the position after it.
pub open spec fn change_code(s: Seq<u8>, q: int) -> Result<(IdCode, int), Error> {
    match field(s, q) {
        Err(e) => Err(e),
        Ok((t, q1)) => match id_code_of(t) {
            None => Err(Error::InvalidIdCode),
            Some(c) => Ok((c, q1)),
        },
    }
}

/// A scalar change whose value byte `b` ends before `q`: the value comes
/// first, the identifier code after it.
#[verifier::opaque]
pub open spec fn scalar_command(s: Seq<u8>, q: int, o: Option<SimulationCommand>, b: u8) -> Step {
    match change_code(s, q) {
        Err(e) => Step::Fail(e),
        Ok((c, q1)) => match value_of(b) {
            None => Step::Fail(Error::InvalidValue),
            Some(v) => Step::Next(CommandModel::ChangeScalar(c, v), q1, o),
        },
    }
}

/// A vector change whose `b` ends before `q`: one logic value per byte of a
/// token, then the identifier code.
#[verifier::opaque]
pub open spec fn vector_command(s: Seq<u8>, q: int, o: Option<SimulationCommand>) -> Step {
    match token(s, q, 32) {
        Err(e) => Step::Fail(e),
        Ok((t, q1)) => match values_of(t) {
            None => Step::Fail(Error::InvalidValue),
            Some(vs) => match change_code(s, q1) {
                Err(e) => Step::Fail(e),
                Ok((c, q2)) => Step::Next(CommandModel::ChangeVector(c, vs), q2, o),
            },
        },
    }
}

/// A real change whose `r` ends before `q`: the number as written, then the
/// identifier code.
#[verifier::opaque]
pub open spec fn real_command(s: Seq<u8>, q: int, o: Option<SimulationCommand>) -> Step {
    match field(s, q) {
        Err(e) => Step::Fail(e),
        Ok((t, q1)) => match change_code(s, q1) {
            Err(e) => Step::Fail(e),
            Ok((c, q2)) => Step::Next(CommandModel::ChangeReal(c, decode_utf8(t)->0), q2, o),
        },
    }
}

/// A string change whose `s` ends before `q`: a word of text, then the
/// identifier code.
#[verifier::opaque]
pub open spec fn string_command(s: Seq<u8>, q: int, o: Option<SimulationCommand>) -> Step {
    match word(s, q) {
        Err(e) => Step::Fail(e),
        Ok((t, q1)) => match change_code(s, q1) {
            Err(e) => Step::Fail(e),
            Ok((c, q2)) => Step::Next(CommandModel::ChangeString(c, t), q2, o),
        },
    }
}

/// One step of reading from `p` with `o` open: skip whitespace, then decode
/// one command by its first byte.
pub open spec fn step(s: Seq<u8>, p: int, o: Option<SimulationCommand>) -> Step {
    let d = skip_ws(s, p);
    if d >= s.len() {
        Step::Done
    } else {
        let b = s[d];
        let q = d + 1;
        if b == 36 {
            dollar_command(s, q, o)
        } else if b == 35 {
            timestamp_command(s, q, o)
        } else if value_of(b) is Some {
            scalar_command(s, q, o, b)
        } else if b == 98 || b == 66 {
            vector_command(s, q, o)
        } else if b == 114 || b == 82 {
            real_command(s, q, o)
        } else if b == 115 || b == 83 {
            string_command(s, q, o)
        } else {
            Step::Fail(Error::UnexpectedCharacter)
        }
    }
}

/// `acc` followed by the items that `r` holds.
pub open spec fn prepend(
    acc: Seq<ItemModel>,
    r: Result<(Seq<ItemModel>, int, Option<SimulationCommand>), Error>,
) -> Result<(Seq<ItemModel>, int, Option<SimulationCommand>), Error> {
    match r {
        Ok((rest, q, o)) => Ok((acc + rest, q, o)),
        Err(e) => Err(e),
    }
}

/// The items of a scope read from `p` up to its `$upscope`, in declaration
/// order, with the scope nested `depth` deep and at most `limit` levels
/// allowed; the position after `$upscope`.
/// Each command read ends past where it began; the comparisons of positions
/// below say so and keep the definition total.
#[verifier::opaque]
pub open spec fn scope_items(
    s: Seq<u8>,
    p: int,
    o: Option<SimulationCommand>,
    depth: nat,
    limit: nat,
) -> Result<(Seq<ItemModel>, int, Option<SimulationCommand>), Error>
    decreases s.len() - p,
{
    match step(s, p, o) {
        Step::Done => Err(Error::UnexpectedEofInScope),
        Step::Fail(e) => Err(e),
        Step::Next(c, q, o1) => if !(p < q <= s.len()) {
            Err(Error::UnexpectedEofInScope)
        } else {
            match c {
                CommandModel::Upscope => Ok((Seq::empty(), q, o1)),
                CommandModel::VarDef(t, n, code, r) => prepend(
                    seq![ItemModel::Var(t, n, code, r)],
                    scope_items(s, q, o1, depth, limit),
                ),
                CommandModel::ScopeDef(t, id) => if depth >= limit {
                    Err(Error::ScopeTooDeep)
                } else {
                    match scope_items(s, q, o1, depth + 1, limit) {
                        Err(e) => Err(e),
                        Ok((kids, q2, o2)) => if !(q < q2 <= s.len()) {
                            Err(Error::UnexpectedEofInScope)
                        } else {
                            prepend(
                                seq![
                                    ItemModel::Scope(
                                        ScopeModel { scope_type: t, identifier: id, children: kids },
                                    ),
                                ],
                                scope_items(s, q2, o2, depth, limit),
                            )
                        },
                    }
                },
                _ => Err(Error::UnexpectedCommandInScope),
            }
        },
    }
}

/// What a header holds, with text as characters.
pub struct HeaderModel {
    pub comment: Option<Seq<char>>,
    pub date: Option<Seq<char>>,
    pub version: Option<Seq<char>>,
    pub timescale: Option<(u32, TimescaleUnit)>,
    pub scope: ScopeModel,
}

pub open spec fn opt_text(t: Option<String>) -> Option<Seq<char>> {
    match t {
        Some(c) => Some(c@),
        None => None,
    }
}

pub open spec fn header_model(h: Header) -> HeaderModel {
    HeaderModel {
        comment: opt_text(h.comment),
        date: opt_text(h.date),
        version: opt_text(h.version),
        timescale: h.timescale,
        scope: scope_model(h.scope),
    }
}

/// A header before any command: no fields, an empty unnamed module scope.
pub open spec fn empty_header() -> HeaderModel {
    HeaderModel {
        comment: None,
        date: None,
        version: None,
        timescale: None,
        scope: ScopeModel {
            scope_type: ScopeType::Module,
            identifier: Seq::empty(),
            children: Seq::empty(),
        },
    }
}

/// The header read from `p` up to `$enddefinitions`, starting from what `h`
/// holds, with scopes nested at most `limit` deep; a later field replaces an
/// earlier one.
pub open spec fn header_from(
    s: Seq<u8>,
    p: int,
    o: Option<SimulationCommand>,
    h: HeaderModel,
    limit: nat,
) -> Result<(HeaderModel, int, Option<SimulationCommand>), Error>
    decreases s.len() - p,
{
    match step(s, p, o) {
        Step::Done => Err(Error::UnexpectedEofInHeader),
        Step::Fail(e) => Err(e),
        Step::Next(c, q, o1) => if !(p < q <= s.len()) {
            Err(Error::UnexpectedEofInHeader)
        } else {
            match c {
                CommandModel::Enddefinitions => Ok((h, q, o1)),
                CommandModel::Comment(t) => header_from(
                    s,
                    q,
                    o1,
                    HeaderModel { comment: Some(t), ..h },
                    limit,
                ),
                CommandModel::Date(t) => header_from(s, q, o1, HeaderModel { date: Some(t), ..h }, limit),
                CommandModel::Version(t) => header_from(
                    s,
                    q,
                    o1,
                    HeaderModel { version: Some(t), ..h },
                    limit,
                ),
                CommandModel::Timescale(n, u) => header_from(
                    s,
                    q,
                    o1,
                    HeaderModel { timescale: Some((n, u)), ..h },
                    limit,
                ),
                CommandModel::ScopeDef(t, id) => match scope_items(s, q, o1, 1, limit) {
                    Err(e) => Err(e),
                    Ok((kids, q2, o2)) => if !(q < q2 <= s.len()) {
                        Err(Error::UnexpectedEofInHeader)
                    } else {
                        header_from(
                            s,
                            q2,
                            o2,
                            HeaderModel {
                                scope: ScopeModel { scope_type: t, identifier: id, children: kids },
                                ..h
                            },
                            limit,
                        )
                    },
                },
                _ => Err(Error::UnexpectedCommandInHeader),
            }
        },
    }
}

pub open spec fn scope_post(
    r: Result<Scope, Error>,
    q: int,
    o: Option<SimulationCommand>,
) -> Result<(Seq<ItemModel>, int, Option<SimulationCommand>), Error> {
    match r {
        Ok(sc) => Ok((scope_model(sc).children, q, o)),
        Err(e) => Err(e),
    }
}

pub open spec fn header_post(
    r: Result<Header, Error>,
    q: int,
    o: Option<SimulationCommand>,
) -> Result<(HeaderModel, int, Option<SimulationCommand>), Error> {
    match r {
        Ok(h) => Ok((header_model(h), q, o)),
        Err(e) => Err(e),
    }
}

pub proof fn lemma_prepend_assoc(
    a: Seq<ItemModel>,
    b: Seq<ItemModel>,
    r: Result<(Seq<ItemModel>, int, Option<SimulationCommand>), Error>,
)
    ensures
        prepend(a, prepend(b, r)) == prepend(a + b, r),
{
    if let Ok((rest, q, o)) = r {
        assert(a + (b + rest) =~= (a + b) + rest);
    }
}

pub proof fn lemma_items_push(v: Seq<ScopeItem>, x: ScopeItem)
    ensures
        items_model(v.push(x)) == items_model(v) + seq![item_model(x)],
{
    assert(items_model(v.push(x)) =~= items_model(v) + seq![item_model(x)]);
}

pub open spec fn tok_post(r: Result<Vec<u8>, Error>, q: int) -> Result<(Seq<u8>, int), Error> {
    match r {
        Ok(t) => Ok((t@, q)),
        Err(e) => Err(e),
    }
}

pub open spec fn text_post(r: Result<String, Error>, q: int) -> Result<(Seq<char>, int), Error> {
    match r {
        Ok(t) => Ok((t@, q)),
        Err(e) => Err(e),
    }
}

pub open spec fn unit_post(r: Result<(), Error>, q: int) -> Result<int, Error> {
    match r {
        Ok(_) => Ok(q),
        Err(e) => Err(e),
    }
}

pub open spec fn code_post(r: Result<IdCode, Error>, q: int) -> Result<(IdCode, int), Error> {
    match r {
        Ok(c) => Ok((c, q)),
        Err(e) => Err(e),
    }
}

pub open spec fn next_post(
    r: Option<Result<Command, Error>>,
    q: int,
    o: Option<SimulationCommand>,
) -> Step {
    match r {
        None => Step::Done,
        Some(x) => step_post(x, q, o),
    }
}

pub open spec fn step_post(
    r: Result<Command, Error>,
    q: int,
    o: Option<SimulationCommand>,
) -> Step {
    match r {
        Ok(c) => Step::Next(c@, q, o),
        Err(e) => Step::Fail(e),
    }
}

} // verus!
