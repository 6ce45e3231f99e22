use vstd::prelude::*;
use vstd::slice::{slice_subrange, slice_to_vec};

use crate::lex::{
    bytes_eq, lemma_skip_ws_bounds, lemma_token_end_bounds, parse_decimal, parse_id_code,
    parse_scope_type, parse_timescale_unit, parse_value, parse_var_type, skip_ws, token_end,
    trim_text, utf8_text, value_of, whitespace_byte,
};
use crate::model::{
    change_code, code_post, command_end, dollar_command, empty_header, end_marker, field,
    find_marker, first_non_digit, header_from, header_model, header_post, lemma_items_push,
    lemma_prepend_assoc, next_post, prepend, real_command, scalar_command, scope_command,
    scope_items, scope_post, simulation_command_of, step, step_post, string_command, text_field,
    text_post, timescale_command, timescale_of, timestamp_command, tok_post, token, unit_post,
    var_command, vector_command, word,
};
use crate::types::{
    item_model, items_model, scope_model, Command, Error, Header, IdCode, ItemModel, Scope,
    ScopeItem, ScopeModel, ScopeType, SimulationCommand, TimescaleUnit, Value, Var,
};

verus! {

broadcast use vstd::std_specs::vec::group_vec_axioms, vstd::seq::group_seq_axioms;

/// How deeply `$scope` declarations may nest unless the parser is told otherwise.
pub const MAX_SCOPE_DEPTH: usize = 256;

fn first_non_digit_index(t: &[u8]) -> (r: usize)
    ensures
        r == first_non_digit(t@, 0),
{
    let mut i: usize = 0;
    while i < t.len() && 48 <= t[i] && t[i] <= 57
        invariant
            0 <= i <= t@.len(),
            first_non_digit(t@, i as int) == first_non_digit(t@, 0),
        decreases t@.len() - i,
    {
        i = i + 1;
    }
    i
}

fn timescale_from(n: &[u8], u: &[u8]) -> (r: Result<(u32, TimescaleUnit), Error>)
    ensures
        r == timescale_of(n@, u@),
{
    let v = match parse_decimal(n, 4294967295) {
        Some(v) => v,
        None => return Err(Error::InvalidNumber),
    };
    match parse_timescale_unit(u) {
        Some(unit) => Ok((v as u32, unit)),
        None => Err(Error::InvalidKeyword),
    }
}

fn simulation_command_from(k: &[u8]) -> (r: Option<SimulationCommand>)
    ensures
        r == simulation_command_of(k@),
{
    if bytes_eq(k, "dumpall") {
        Some(SimulationCommand::Dumpall)
    } else if bytes_eq(k, "dumpoff") {
        Some(SimulationCommand::Dumpoff)
    } else if bytes_eq(k, "dumpon") {
        Some(SimulationCommand::Dumpon)
    } else if bytes_eq(k, "dumpvars") {
        Some(SimulationCommand::Dumpvars)
    } else {
        None
    }
}

/// Reads VCD commands from a buffer of bytes.
pub struct Parser {
    input: Vec<u8>,
    pos: usize,
    simulation_command: Option<SimulationCommand>,
    max_depth: usize,
}

impl Parser {
    /// The bytes being read.
    pub closed spec fn bytes(&self) -> Seq<u8> {
        self.input@
    }

    /// How many bytes have been consumed.
    pub closed spec fn position(&self) -> int {
        self.pos as int
    }

    /// The simulation command opened and not yet closed.
    pub closed spec fn open_command(&self) -> Option<SimulationCommand> {
        self.simulation_command
    }

    /// How deeply scopes may nest.
    pub closed spec fn depth_limit(&self) -> nat {
        self.max_depth as nat
    }

    pub closed spec fn wf(&self) -> bool {
        self.pos <= self.input@.len()
    }

    /// `next` reads on from `self`: same bytes, not backwards, same open command.
    spec fn reads_on(&self, next: &Parser) -> bool {
        &&& next.input@ == self.input@
        &&& self.pos <= next.pos <= next.input@.len()
        &&& next.simulation_command == self.simulation_command
        &&& next.max_depth == self.max_depth
    }

    /// A parser at the start of `input`, with no simulation command open and
    /// scopes allowed to nest `MAX_SCOPE_DEPTH` deep.
    pub fn new(input: &[u8]) -> (r: Parser)
        ensures
            r.wf(),
            r.bytes() == input@,
            r.position() == 0,
            r.open_command() is None,
            r.depth_limit() == MAX_SCOPE_DEPTH,
    {
        Parser {
            input: slice_to_vec(input),
            pos: 0,
            simulation_command: None,
            max_depth: MAX_SCOPE_DEPTH,
        }
    }

    /// Lets scopes nest at most `limit` deep; a deeper one fails the header.
    pub fn set_max_depth(&mut self, limit: usize)
        ensures
            final(self).bytes() == old(self).bytes(),
            final(self).position() == old(self).position(),
            final(self).open_command() == old(self).open_command(),
            final(self).depth_limit() == limit,
            final(self).wf() == old(self).wf(),
    {
        self.max_depth = limit;
    }

    fn skip_whitespace(&mut self)
        requires
            old(self).wf(),
        ensures
            old(self).reads_on(final(self)),
            final(self).pos == skip_ws(old(self).input@, old(self).pos as int),
    {
        let len = self.input.len();
        proof {
            lemma_skip_ws_bounds(self.input@, self.pos as int);
        }
        while self.pos < len && whitespace_byte(self.input[self.pos])
            invariant
                len == self.input@.len(),
                old(self).reads_on(self),
                skip_ws(self.input@, self.pos as int) == skip_ws(
                    old(self).input@,
                    old(self).pos as int,
                ),
            decreases len - self.pos,
        {
            self.pos = self.pos + 1;
        }
    }

    /// Reads a token of at most `cap` bytes.
    fn read_token(&mut self, cap: usize) -> (r: Result<Vec<u8>, Error>)
        requires
            old(self).wf(),
        ensures
            old(self).reads_on(final(self)),
            token(old(self).input@, old(self).pos as int, cap as int) == tok_post(
                r,
                final(self).pos as int,
            ),
    {
        self.skip_whitespace();
        let len = self.input.len();
        let start = self.pos;
        if start >= len {
            return Err(Error::UnexpectedEof);
        }
        let ghost s = self.input@;
        let mut t: Vec<u8> = Vec::new();
        let mut j: usize = start;
        proof {
            lemma_token_end_bounds(s, start as int);
        }
        while j < len && !whitespace_byte(self.input[j])
            invariant
                s == self.input@,
                len == s.len(),
                old(self).reads_on(self),
                self.pos == start,
                skip_ws(s, old(self).pos as int) == start,
                start <= j <= len,
                t@ == s.subrange(start as int, j as int),
                t@.len() == j - start,
                t@.len() <= cap,
                token_end(s, j as int) == token_end(s, start as int),
            decreases len - j,
        {
            if t.len() >= cap {
                proof {
                    lemma_token_end_bounds(s, j as int + 1);
                    assert(token_end(s, j as int) == token_end(s, j as int + 1));
                }
                return Err(Error::TokenTooLong);
            }
            t.push(self.input[j]);
            j = j + 1;
            assert(t@ =~= s.subrange(start as int, j as int));
        }
        self.pos = if j < len {
            j + 1
        } else {
            j
        };
        Ok(t)
    }

    /// Reads a field of a command: at most 32 bytes, not `$end`, well-formed
    /// text.
    fn read_field(&mut self) -> (r: Result<Vec<u8>, Error>)
        requires
            old(self).wf(),
        ensures
            old(self).reads_on(final(self)),
            field(old(self).input@, old(self).pos as int) == tok_post(r, final(self).pos as int),
    {
        let t = match self.read_token(32) {
            Ok(t) => t,
            Err(e) => return Err(e),
        };
        if bytes_eq(t.as_slice(), "$end") {
            return Err(Error::UnexpectedEnd);
        }
        match utf8_text(&t) {
            Some(_) => Ok(t),
            None => Err(Error::InvalidUtf8),
        }
    }

    /// Reads a token of any length as text.
    fn read_word(&mut self) -> (r: Result<String, Error>)
        requires
            old(self).wf(),
        ensures
            old(self).reads_on(final(self)),
            word(old(self).input@, old(self).pos as int) == text_post(r, final(self).pos as int),
    {
        let cap = self.input.len();
        let t = match self.read_token(cap) {
            Ok(t) => t,
            Err(e) => return Err(e),
        };
        match utf8_text(&t) {
            Some(w) => Ok(w),
            None => Err(Error::InvalidUtf8),
        }
    }

    /// Reads the `$end` that closes a command.
    fn read_command_end(&mut self) -> (r: Result<(), Error>)
        requires
            old(self).wf(),
        ensures
            old(self).reads_on(final(self)),
            command_end(old(self).input@, old(self).pos as int) == unit_post(
                r,
                final(self).pos as int,
            ),
    {
        let t = match self.read_token(8) {
            Ok(t) => t,
            Err(e) => return Err(e),
        };
        if bytes_eq(t.as_slice(), "$end") {
            Ok(())
        } else {
            Err(Error::ExpectedEnd)
        }
    }

    /// Reads free text up to the next `$end`, trimmed.
    fn read_text_field(&mut self) -> (r: Result<String, Error>)
        requires
            old(self).wf(),
        ensures
            old(self).reads_on(final(self)),
            text_field(old(self).input@, old(self).pos as int) == text_post(
                r,
                final(self).pos as int,
            ),
    {
        let ghost s = self.input@;
        let len = self.input.len();
        let start = self.pos;
        if len - start < 4 {
            return Err(Error::UnexpectedEof);
        }
        let mut j: usize = start + 4;
        loop
            invariant
                s == self.input@,
                len == s.len(),
                old(self).reads_on(self),
                self.pos == start,
                start + 4 <= j <= len,
                find_marker(s, j as int) == find_marker(s, start + 4),
            ensures
                s == self.input@,
                old(self).reads_on(self),
                self.pos == start,
                start + 4 <= j <= len,
                find_marker(s, j as int) == find_marker(s, start + 4),
                end_marker(s, j as int),
            decreases len - j,
        {
            if bytes_eq(slice_subrange(self.input.as_slice(), j - 4, j), "$end") {
                assert(end_marker(s, j as int));
                break;
            }
            assert(!end_marker(s, j as int));
            if j == len {
                assert(find_marker(s, j as int + 1) == -1);
                return Err(Error::UnexpectedEof);
            }
            j = j + 1;
        }
        assert(find_marker(s, j as int) == j);
        let raw = slice_to_vec(slice_subrange(self.input.as_slice(), start, j - 4));
        let text = match utf8_text(&raw) {
            Some(text) => text,
            None => return Err(Error::InvalidUtf8),
        };
        self.pos = j;
        Ok(trim_text(&text))
    }

    /// `next` reads on from `self`: same bytes, not backwards.
    spec fn moves_to(&self, next: &Parser) -> bool {
        &&& next.input@ == self.input@
        &&& self.pos <= next.pos <= next.input@.len()
        &&& next.max_depth == self.max_depth
    }

    /// Reads the identifier code that ends a value change.
    fn read_change_code(&mut self) -> (r: Result<IdCode, Error>)
        requires
            old(self).wf(),
        ensures
            old(self).reads_on(final(self)),
            change_code(old(self).input@, old(self).pos as int) == code_post(
                r,
                final(self).pos as int,
            ),
    {
        let t = match self.read_field() {
            Ok(t) => t,
            Err(e) => return Err(e),
        };
        match parse_id_code(t.as_slice()) {
            Some(c) => Ok(c),
            None => Err(Error::InvalidIdCode),
        }
    }

    fn parse_timescale(&mut self) -> (r: Result<Command, Error>)
        requires
            old(self).wf(),
        ensures
            old(self).reads_on(final(self)),
            timescale_command(old(self).input@, old(self).pos as int, old(self).simulation_command)
                == step_post(r, final(self).pos as int, final(self).simulation_command),
    {
        let t = match self.read_token(8) {
            Ok(t) => t,
            Err(e) => return Err(e),
        };
        if utf8_text(&t).is_none() {
            return Err(Error::InvalidUtf8);
        }
        let i = first_non_digit_index(t.as_slice());
        let ts = if i < t.len() {
            match self.read_command_end() {
                Ok(()) => {},
                Err(e) => return Err(e),
            }
            timescale_from(
                slice_subrange(t.as_slice(), 0, i),
                slice_subrange(t.as_slice(), i, t.len()),
            )
        } else {
            let u = match self.read_token(8) {
                Ok(u) => u,
                Err(e) => return Err(e),
            };
            if utf8_text(&u).is_none() {
                return Err(Error::InvalidUtf8);
            }
            match self.read_command_end() {
                Ok(()) => {},
                Err(e) => return Err(e),
            }
            timescale_from(t.as_slice(), u.as_slice())
        };
        match ts {
            Ok((v, unit)) => Ok(Command::Timescale(v, unit)),
            Err(e) => Err(e),
        }
    }

    fn parse_scope_def(&mut self) -> (r: Result<Command, Error>)
        requires
            old(self).wf(),
        ensures
            old(self).reads_on(final(self)),
            scope_command(old(self).input@, old(self).pos as int, old(self).simulation_command)
                == step_post(r, final(self).pos as int, final(self).simulation_command),
    {
        let t = match self.read_field() {
            Ok(t) => t,
            Err(e) => return Err(e),
        };
        let scope_type = match parse_scope_type(t.as_slice()) {
            Some(st) => st,
            None => return Err(Error::InvalidKeyword),
        };
        let identifier = match self.read_word() {
            Ok(w) => w,
            Err(e) => return Err(e),
        };
        match self.read_command_end() {
            Ok(()) => Ok(Command::ScopeDef(scope_type, identifier)),
            Err(e) => Err(e),
        }
    }

    fn parse_var_def(&mut self) -> (r: Result<Command, Error>)
        requires
            old(self).wf(),
        ensures
            old(self).reads_on(final(self)),
            var_command(old(self).input@, old(self).pos as int, old(self).simulation_command)
                == step_post(r, final(self).pos as int, final(self).simulation_command),
    {
        let t = match self.read_field() {
            Ok(t) => t,
            Err(e) => return Err(e),
        };
        let var_type = match parse_var_type(t.as_slice()) {
            Some(vt) => vt,
            None => return Err(Error::InvalidKeyword),
        };
        let n = match self.read_field() {
            Ok(n) => n,
            Err(e) => return Err(e),
        };
        let size = match parse_decimal(n.as_slice(), 4294967295) {
            Some(size) => size,
            None => return Err(Error::InvalidNumber),
        };
        if size == 0 {
            return Err(Error::InvalidNumber);
        }
        let code = match self.read_change_code() {
            Ok(c) => c,
            Err(e) => return Err(e),
        };
        let reference = match self.read_word() {
            Ok(w) => w,
            Err(e) => return Err(e),
        };
        match self.read_command_end() {
            Ok(()) => Ok(Command::VarDef(var_type, size as u32, code, reference)),
            Err(e) => Err(e),
        }
    }

    /// Decodes a command introduced by `$`, which has been consumed.
    fn parse_command(&mut self) -> (r: Result<Command, Error>)
        requires
            old(self).wf(),
        ensures
            old(self).moves_to(final(self)),
            dollar_command(old(self).input@, old(self).pos as int, old(self).simulation_command)
                == step_post(r, final(self).pos as int, final(self).simulation_command),
    {
        proof {
            reveal(dollar_command);
        }
        let k = match self.read_token(16) {
            Ok(k) => k,
            Err(e) => return Err(e),
        };
        let ks = k.as_slice();
        if bytes_eq(ks, "comment") {
            match self.read_text_field() {
                Ok(c) => Ok(Command::Comment(c)),
                Err(e) => Err(e),
            }
        } else if bytes_eq(ks, "date") {
            match self.read_text_field() {
                Ok(c) => Ok(Command::Date(c)),
                Err(e) => Err(e),
            }
        } else if bytes_eq(ks, "version") {
            match self.read_text_field() {
                Ok(c) => Ok(Command::Version(c)),
                Err(e) => Err(e),
            }
        } else if bytes_eq(ks, "timescale") {
            self.parse_timescale()
        } else if bytes_eq(ks, "scope") {
            self.parse_scope_def()
        } else if bytes_eq(ks, "upscope") {
            match self.read_command_end() {
                Ok(()) => Ok(Command::Upscope),
                Err(e) => Err(e),
            }
        } else if bytes_eq(ks, "var") {
            self.parse_var_def()
        } else if bytes_eq(ks, "enddefinitions") {
            match self.read_command_end() {
                Ok(()) => Ok(Command::Enddefinitions),
                Err(e) => Err(e),
            }
        } else if let Some(c) = simulation_command_from(ks) {
            self.simulation_command = Some(c);
            Ok(Command::Begin(c))
        } else if bytes_eq(ks, "end") {
            match self.simulation_command {
                Some(c) => {
                    self.simulation_command = None;
                    Ok(Command::End(c))
                },
                None => Err(Error::UnmatchedEnd),
            }
        } else {
            Err(Error::InvalidKeyword)
        }
    }

    fn parse_timestamp(&mut self) -> (r: Result<Command, Error>)
        requires
            old(self).wf(),
        ensures
            old(self).reads_on(final(self)),
            timestamp_command(old(self).input@, old(self).pos as int, old(self).simulation_command)
                == step_post(r, final(self).pos as int, final(self).simulation_command),
    {
        proof {
            reveal(timestamp_command);
        }
        let t = match self.read_field() {
            Ok(t) => t,
            Err(e) => return Err(e),
        };
        match parse_decimal(t.as_slice(), 18446744073709551615) {
            Some(n) => Ok(Command::Timestamp(n)),
            None => Err(Error::InvalidNumber),
        }
    }

    /// Decodes a scalar change whose value byte `initial` has been consumed.
    fn parse_scalar(&mut self, initial: u8) -> (r: Result<Command, Error>)
        requires
            old(self).wf(),
        ensures
            old(self).reads_on(final(self)),
            scalar_command(
                old(self).input@,
                old(self).pos as int,
                old(self).simulation_command,
                initial,
            ) == step_post(r, final(self).pos as int, final(self).simulation_command),
    {
        proof {
            reveal(scalar_command);
        }
        let code = match self.read_change_code() {
            Ok(c) => c,
            Err(e) => return Err(e),
        };
        match parse_value(initial) {
            Some(v) => Ok(Command::ChangeScalar(code, v)),
            None => Err(Error::InvalidValue),
        }
    }

    fn parse_vector(&mut self) -> (r: Result<Command, Error>)
        requires
            old(self).wf(),
        ensures
            old(self).reads_on(final(self)),
            vector_command(old(self).input@, old(self).pos as int, old(self).simulation_command)
                == step_post(r, final(self).pos as int, final(self).simulation_command),
    {
        proof {
            reveal(vector_command);
        }
        let t = match self.read_token(32) {
            Ok(t) => t,
            Err(e) => return Err(e),
        };
        let mut values: Vec<Value> = Vec::new();
        let mut i: usize = 0;
        while i < t.len()
            invariant
                0 <= i <= t@.len(),
                old(self).reads_on(self),
                token(old(self).input@, old(self).pos as int, 32) == Ok::<(Seq<u8>, int), Error>(
                    (t@, self.pos as int),
                ),
                values@.len() == i,
                forall|k: int| 0 <= k < i ==> value_of(#[trigger] t@[k]) == Some(values@[k]),
            decreases t@.len() - i,
        {
            match parse_value(t[i]) {
                Some(v) => values.push(v),
                None => {
                    assert(value_of(t@[i as int]) is None);
                    proof {
                        reveal(vector_command);
                    }
                    return Err(Error::InvalidValue);
                },
            }
            i = i + 1;
        }
        assert(values@ =~= Seq::new(t@.len(), |k: int| value_of(t@[k])->0));
        match self.read_change_code() {
            Ok(c) => Ok(Command::ChangeVector(c, values)),
            Err(e) => Err(e),
        }
    }

    fn parse_real(&mut self) -> (r: Result<Command, Error>)
        requires
            old(self).wf(),
        ensures
            old(self).reads_on(final(self)),
            real_command(old(self).input@, old(self).pos as int, old(self).simulation_command)
                == step_post(r, final(self).pos as int, final(self).simulation_command),
    {
        proof {
            reveal(real_command);
        }
        let t = match self.read_field() {
            Ok(t) => t,
            Err(e) => return Err(e),
        };
        let text = match utf8_text(&t) {
            Some(text) => text,
            None => return Err(Error::InvalidUtf8),
        };
        match self.read_change_code() {
            Ok(c) => Ok(Command::ChangeReal(c, text)),
            Err(e) => Err(e),
        }
    }

    fn parse_string(&mut self) -> (r: Result<Command, Error>)
        requires
            old(self).wf(),
        ensures
            old(self).reads_on(final(self)),
            string_command(old(self).input@, old(self).pos as int, old(self).simulation_command)
                == step_post(r, final(self).pos as int, final(self).simulation_command),
    {
        proof {
            reveal(string_command);
        }
        let text = match self.read_word() {
            Ok(w) => w,
            Err(e) => return Err(e),
        };
        match self.read_change_code() {
            Ok(c) => Ok(Command::ChangeString(c, text)),
            Err(e) => Err(e),
        }
    }

    /// Reads the next command; `None` once only whitespace is left.
    pub fn next(&mut self) -> (r: Option<Result<Command, Error>>)
        requires
            old(self).wf(),
        ensures
            final(self).wf(),
            final(self).bytes() == old(self).bytes(),
            final(self).depth_limit() == old(self).depth_limit(),
            step(old(self).bytes(), old(self).position(), old(self).open_command()) == next_post(
                r,
                final(self).position(),
                final(self).open_command(),
            ),
            old(self).position() <= final(self).position(),
            r is Some ==> old(self).position() < final(self).position(),
    {
        proof {
            reveal(step);
        }
        self.skip_whitespace();
        if self.pos >= self.input.len() {
            return None;
        }
        let b = self.input[self.pos];
        self.pos = self.pos + 1;
        let r = if b == 36 {
            self.parse_command()
        } else if b == 35 {
            self.parse_timestamp()
        } else if parse_value(b).is_some() {
            self.parse_scalar(b)
        } else if b == 98 || b == 66 {
            self.parse_vector()
        } else if b == 114 || b == 82 {
            self.parse_real()
        } else if b == 115 || b == 83 {
            self.parse_string()
        } else {
            Err(Error::UnexpectedCharacter)
        };
        Some(r)
    }

    /// Reads one item of a scope nested `depth` deep; `None` at its `$upscope`.
    fn parse_scope_item(&mut self, depth: usize) -> (r: Result<Option<ScopeItem>, Error>)
        requires
            old(self).wf(),
        ensures
            old(self).moves_to(final(self)),
            match r {
                Err(e) => scope_items(
                    old(self).input@,
                    old(self).pos as int,
                    old(self).simulation_command,
                    depth as nat,
                    old(self).max_depth as nat,
                ) == Err::<(Seq<ItemModel>, int, Option<SimulationCommand>), Error>(e),
                Ok(None) => scope_items(
                    old(self).input@,
                    old(self).pos as int,
                    old(self).simulation_command,
                    depth as nat,
                    old(self).max_depth as nat,
                ) == Ok::<(Seq<ItemModel>, int, Option<SimulationCommand>), Error>(
                    (Seq::empty(), final(self).pos as int, final(self).simulation_command),
                ),
                Ok(Some(item)) => scope_items(
                    old(self).input@,
                    old(self).pos as int,
                    old(self).simulation_command,
                    depth as nat,
                    old(self).max_depth as nat,
                ) == prepend(
                    seq![item_model(item)],
                    scope_items(
                        final(self).input@,
                        final(self).pos as int,
                        final(self).simulation_command,
                        depth as nat,
                        final(self).max_depth as nat,
                    ),
                ),
            },
            r is Ok ==> old(self).pos < final(self).pos,
        decreases old(self).input@.len() - old(self).pos, 0nat,
    {
        let ghost s = self.input@;
        let ghost p1 = self.pos as int;
        let ghost o1 = self.simulation_command;
        let ghost d = depth as nat;
        let ghost lim = self.max_depth as nat;
        match self.next() {
            None => {
                assert(scope_items(s, p1, o1, d, lim) == Err::<
                    (Seq<ItemModel>, int, Option<SimulationCommand>),
                    Error,
                >(Error::UnexpectedEofInScope)) by {
                    reveal_with_fuel(scope_items, 1);
                }
                Err(Error::UnexpectedEofInScope)
            },
            Some(Err(e)) => {
                assert(scope_items(s, p1, o1, d, lim) == Err::<
                    (Seq<ItemModel>, int, Option<SimulationCommand>),
                    Error,
                >(e)) by {
                    reveal_with_fuel(scope_items, 1);
                }
                Err(e)
            },
            Some(Ok(Command::Upscope)) => {
                assert(scope_items(s, p1, o1, d, lim) == Ok::<
                    (Seq<ItemModel>, int, Option<SimulationCommand>),
                    Error,
                >((Seq::empty(), self.pos as int, self.simulation_command))) by {
                    reveal_with_fuel(scope_items, 1);
                }
                Ok(None)
            },
            Some(Ok(Command::VarDef(var_type, size, code, reference))) => {
                let item = ScopeItem::Var(Var { var_type, size, code, reference });
                assert(scope_items(s, p1, o1, d, lim) == prepend(
                    seq![item_model(item)],
                    scope_items(s, self.pos as int, self.simulation_command, d, lim),
                )) by {
                    reveal_with_fuel(scope_items, 1);
                }
                Ok(Some(item))
            },
            Some(Ok(Command::ScopeDef(t, id))) => {
                if depth >= self.max_depth {
                    assert(scope_items(s, p1, o1, d, lim) == Err::<
                        (Seq<ItemModel>, int, Option<SimulationCommand>),
                        Error,
                    >(Error::ScopeTooDeep)) by {
                        reveal_with_fuel(scope_items, 1);
                    }
                    return Err(Error::ScopeTooDeep);
                }
                let ghost idv = id@;
                let sc = match self.parse_scope(t, id, depth + 1) {
                    Ok(sc) => sc,
                    Err(e) => {
                        assert(scope_items(s, p1, o1, d, lim) == Err::<
                            (Seq<ItemModel>, int, Option<SimulationCommand>),
                            Error,
                        >(e)) by {
                            reveal_with_fuel(scope_items, 1);
                        }
                        return Err(e);
                    },
                };
                let item = ScopeItem::Scope(sc);
                assert(item_model(item) == ItemModel::Scope(
                    ScopeModel { scope_type: t, identifier: idv, children: scope_model(sc).children },
                ));
                assert(scope_items(s, p1, o1, d, lim) == prepend(
                    seq![item_model(item)],
                    scope_items(s, self.pos as int, self.simulation_command, d, lim),
                )) by {
                    reveal_with_fuel(scope_items, 1);
                }
                Ok(Some(item))
            },
            Some(Ok(_)) => {
                assert(scope_items(s, p1, o1, d, lim) == Err::<
                    (Seq<ItemModel>, int, Option<SimulationCommand>),
                    Error,
                >(Error::UnexpectedCommandInScope)) by {
                    reveal_with_fuel(scope_items, 1);
                }
                Err(Error::UnexpectedCommandInScope)
            },
        }
    }

    /// Reads the items of a scope of type `scope_type` named `identifier`,
    /// nested `depth` deep, up to and with its `$upscope`.
    fn parse_scope(&mut self, scope_type: ScopeType, identifier: String, depth: usize) -> (r:
        Result<Scope, Error>)
        requires
            old(self).wf(),
        ensures
            old(self).moves_to(final(self)),
            scope_items(
                old(self).input@,
                old(self).pos as int,
                old(self).simulation_command,
                depth as nat,
                old(self).max_depth as nat,
            )
                == scope_post(r, final(self).pos as int, final(self).simulation_command),
            r is Ok ==> old(self).pos < final(self).pos,
            r matches Ok(sc) ==> sc.scope_type == scope_type && sc.identifier@ == identifier@,
        decreases old(self).input@.len() - old(self).pos, 1nat,
    {
        let ghost s = self.input@;
        let ghost p0 = self.pos as int;
        let ghost o0 = self.simulation_command;
        let ghost lim = self.max_depth as nat;
        let mut children: Vec<ScopeItem> = Vec::new();
        assert(prepend(items_model(children@), scope_items(s, p0, o0, depth as nat, lim))
            == scope_items(s, p0, o0, depth as nat, lim)) by {
            if let Ok((rest, q, o)) = scope_items(s, p0, o0, depth as nat, lim) {
                assert(items_model(children@) + rest =~= rest);
            }
        }
        loop
            invariant
                s == self.input@,
                self.wf(),
                p0 <= self.pos,
                p0 == old(self).pos,
                o0 == old(self).simulation_command,
                s == old(self).input@,
                lim == self.max_depth,
                self.max_depth == old(self).max_depth,
                scope_items(s, p0, o0, depth as nat, lim) == prepend(
                    items_model(children@),
                    scope_items(s, self.pos as int, self.simulation_command, depth as nat, lim),
                ),
            decreases s.len() - self.pos,
        {
            let ghost acc = children@;
            let ghost p1 = self.pos as int;
            match self.parse_scope_item(depth) {
                Err(e) => {
                    return Err(e);
                },
                Ok(None) => {
                    assert(items_model(children@) + Seq::empty() =~= items_model(children@));
                    assert(p0 < self.pos);
                    return Ok(Scope { scope_type, identifier, children });
                },
                Ok(Some(item)) => {
                    proof {
                        lemma_items_push(acc, item);
                        lemma_prepend_assoc(
                            items_model(acc),
                            seq![item_model(item)],
                            scope_items(s, self.pos as int, self.simulation_command, depth as nat, lim),
                        );
                    }
                    children.push(item);
                },
            }
        }
    }

    /// Reads the header: every command up to and with `$enddefinitions`.
    /// Reading then goes on with the simulation commands.
    pub fn parse_header(&mut self) -> (r: Result<Header, Error>)
        requires
            old(self).wf(),
        ensures
            final(self).wf(),
            final(self).bytes() == old(self).bytes(),
            final(self).depth_limit() == old(self).depth_limit(),
            header_from(
                old(self).bytes(),
                old(self).position(),
                old(self).open_command(),
                empty_header(),
                old(self).depth_limit(),
            )
                == header_post(r, final(self).position(), final(self).open_command()),
    {
        let ghost s = self.input@;
        let ghost p0 = self.pos as int;
        let ghost o0 = self.simulation_command;
        let ghost lim = self.max_depth as nat;
        let mut header = Header {
            comment: None,
            date: None,
            version: None,
            timescale: None,
            scope: Scope { scope_type: ScopeType::Module, identifier: String::new(), children: Vec::new() },
        };
        assert(items_model(header.scope.children@) =~= Seq::empty());
        assert(header_model(header) == empty_header());
        loop
            invariant
                s == self.input@,
                self.wf(),
                p0 == old(self).pos,
                o0 == old(self).simulation_command,
                s == old(self).input@,
                lim == self.max_depth,
                self.max_depth == old(self).max_depth,
                header_from(s, p0, o0, empty_header(), lim) == header_from(
                    s,
                    self.pos as int,
                    self.simulation_command,
                    header_model(header),
                    lim,
                ),
            decreases s.len() - self.pos,
        {
            match self.next() {
                None => {
                    return Err(Error::UnexpectedEofInHeader);
                },
                Some(Err(e)) => {
                    return Err(e);
                },
                Some(Ok(Command::Enddefinitions)) => {
                    return Ok(header);
                },
                Some(Ok(Command::Comment(t))) => {
                    header.comment = Some(t);
                },
                Some(Ok(Command::Date(t))) => {
                    header.date = Some(t);
                },
                Some(Ok(Command::Version(t))) => {
                    header.version = Some(t);
                },
                Some(Ok(Command::Timescale(n, u))) => {
                    header.timescale = Some((n, u));
                },
                Some(Ok(Command::ScopeDef(t, id))) => {
                    let sc = match self.parse_scope(t, id, 1) {
                        Ok(sc) => sc,
                        Err(e) => return Err(e),
                    };
                    header.scope = sc;
                },
                Some(Ok(_)) => {
                    return Err(Error::UnexpectedCommandInHeader);
                },
            }
        }
    }
}

} // verus!
