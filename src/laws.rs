//! Laws of reading that relate several steps or hold of every input.

use vstd::prelude::*;
use vstd::string::{is_ascii, StringSliceAdditionalSpecFns};

use crate::lex::{
    decode_utf8, lemma_skip_ws_bounds, lemma_token_end_bounds, skip_ws, token_end, trimmed,
    value_of,
};
use crate::model::{
    dollar_command, end_marker, find_marker, prepend, real_command, scalar_command, scope_items,
    step, string_command, text_field, timestamp_command, token, vector_command, Step,
};
use crate::types::{CommandModel, Error, ItemModel, ScopeModel, SimulationCommand};

verus! {

/// Simulation commands bracket: a `Begin` opens exactly its own kind, an `End`
/// closes the kind that was open and leaves none open, so an `End` never comes
/// while none is open; every other command leaves the open kind as it was.
pub proof fn lemma_simulation_brackets(s: Seq<u8>, p: int, o: Option<SimulationCommand>)
    ensures
        step(s, p, o) matches Step::Next(CommandModel::Begin(c), _, o1) ==> o1 == Some(c),
        step(s, p, o) matches Step::Next(CommandModel::End(c), _, o1) ==> o == Some(c) && o1
            is None,
        o is None ==> !(step(s, p, o) matches Step::Next(CommandModel::End(_), _, _)),
        step(s, p, o) matches Step::Next(c, _, o1) ==> (c is Begin || c is End || o1 == o),
{
    reveal(step);
    let d = skip_ws(s, p);
    if d < s.len() {
        let b = s[d];
        if b == 36 {
            lemma_dollar_brackets(s, d + 1, o);
        } else if b == 35 {
            reveal(timestamp_command);
        } else if value_of(b) is Some {
            reveal(scalar_command);
        } else if b == 98 || b == 66 {
            reveal(vector_command);
        } else if b == 114 || b == 82 {
            reveal(real_command);
        } else if b == 115 || b == 83 {
            reveal(string_command);
        }
    }
}

proof fn lemma_dollar_brackets(s: Seq<u8>, q: int, o: Option<SimulationCommand>)
    ensures
        dollar_command(s, q, o) matches Step::Next(CommandModel::Begin(c), _, o1) ==> o1 == Some(
            c,
        ),
        dollar_command(s, q, o) matches Step::Next(CommandModel::End(c), _, o1) ==> o == Some(c)
            && o1 is None,
        dollar_command(s, q, o) matches Step::Next(c, _, o1) ==> (c is Begin || c is End || o1
            == o),
{
    reveal(dollar_command);
}

/// Malformed value changes fail: after a `b`, a run of more than 32 bytes
/// fails as too long, and a byte of the run that is no logic value fails as
/// an invalid value; a line that starts with a byte that begins no command
/// fails too.
pub proof fn lemma_malformed_changes_fail(s: Seq<u8>, p: int, o: Option<SimulationCommand>)
    requires
        0 <= p <= s.len(),
    ensures
        ({
            let d = skip_ws(s, p);
            let st = skip_ws(s, d + 1);
            d < s.len() && (s[d] == 98 || s[d] == 66) && st < s.len() && token_end(s, st) - st > 32
                ==> step(s, p, o) == Step::Fail(Error::TokenTooLong)
        }),
        ({
            let d = skip_ws(s, p);
            let st = skip_ws(s, d + 1);
            d < s.len() && (s[d] == 98 || s[d] == 66) && st < s.len() && token_end(s, st) - st
                <= 32 && (exists|k: int|
                st <= k < token_end(s, st) && #[trigger] value_of(s[k]) is None) ==> step(
                s,
                p,
                o,
            ) == Step::Fail(Error::InvalidValue)
        }),
        ({
            let d = skip_ws(s, p);
            d < s.len() && s[d] != 36 && s[d] != 35 && value_of(s[d]) is None && s[d] != 98 && s[d]
                != 66 && s[d] != 114 && s[d] != 82 && s[d] != 115 && s[d] != 83 ==> step(s, p, o)
                == Step::Fail(Error::UnexpectedCharacter)
        }),
{
    reveal(step);
    reveal(vector_command);
    let d = skip_ws(s, p);
    lemma_skip_ws_bounds(s, p);
    if d < s.len() && (s[d] == 98 || s[d] == 66) {
        let st = skip_ws(s, d + 1);
        lemma_skip_ws_bounds(s, d + 1);
        if st < s.len() && token_end(s, st) - st <= 32 {
            lemma_token_end_bounds(s, st);
            let t = s.subrange(st, token_end(s, st));
            if exists|k: int| st <= k < token_end(s, st) && #[trigger] value_of(s[k]) is None {
                let k = choose|k: int| st <= k < token_end(s, st) && #[trigger] value_of(s[k]) is None;
                assert(value_of(t[k - st]) is None);
            }
        }
    }
}

/// The items of a scope keep declaration order: a declaration read first
/// stands first, ahead of every item read after it, whether it declares a
/// variable or a nested scope.
pub proof fn lemma_scope_declaration_order(
    s: Seq<u8>,
    p: int,
    o: Option<SimulationCommand>,
    depth: nat,
    limit: nat,
)
    ensures
        step(s, p, o) matches Step::Next(CommandModel::VarDef(t, n, c, r), q, o1) ==> (p < q
            <= s.len() ==> scope_items(s, p, o, depth, limit) == prepend(
            seq![ItemModel::Var(t, n, c, r)],
            scope_items(s, q, o1, depth, limit),
        )),
        step(s, p, o) matches Step::Next(CommandModel::ScopeDef(t, id), q, o1) ==> (p < q
            <= s.len() && depth < limit ==> match scope_items(s, q, o1, depth + 1, limit) {
            Ok((kids, q2, o2)) => q < q2 <= s.len() ==> scope_items(s, p, o, depth, limit) == prepend(
                seq![
                    ItemModel::Scope(ScopeModel { scope_type: t, identifier: id, children: kids }),
                ],
                scope_items(s, q2, o2, depth, limit),
            ),
            Err(e) => scope_items(s, p, o, depth, limit) == Err::<
                (Seq<ItemModel>, int, Option<SimulationCommand>),
                Error,
            >(e),
        }),
{
    reveal_with_fuel(scope_items, 1);
}

proof fn lemma_end_keyword_distinct()
    ensures
        "end".spec_bytes() != "comment".spec_bytes(),
        "end".spec_bytes() != "date".spec_bytes(),
        "end".spec_bytes() != "version".spec_bytes(),
        "end".spec_bytes() != "timescale".spec_bytes(),
        "end".spec_bytes() != "scope".spec_bytes(),
        "end".spec_bytes() != "upscope".spec_bytes(),
        "end".spec_bytes() != "var".spec_bytes(),
        "end".spec_bytes() != "enddefinitions".spec_bytes(),
        "end".spec_bytes() != "dumpall".spec_bytes(),
        "end".spec_bytes() != "dumpoff".spec_bytes(),
        "end".spec_bytes() != "dumpon".spec_bytes(),
        "end".spec_bytes() != "dumpvars".spec_bytes(),
{
    broadcast use vstd::string::is_ascii_spec_bytes;

    reveal_strlit("end");
    assert(is_ascii("end"));
    reveal_strlit("comment");
    assert(is_ascii("comment"));
    reveal_strlit("date");
    assert(is_ascii("date"));
    reveal_strlit("version");
    assert(is_ascii("version"));
    reveal_strlit("timescale");
    assert(is_ascii("timescale"));
    reveal_strlit("scope");
    assert(is_ascii("scope"));
    reveal_strlit("upscope");
    assert(is_ascii("upscope"));
    reveal_strlit("var");
    assert(is_ascii("var"));
    reveal_strlit("enddefinitions");
    assert(is_ascii("enddefinitions"));
    reveal_strlit("dumpall");
    assert(is_ascii("dumpall"));
    reveal_strlit("dumpoff");
    assert(is_ascii("dumpoff"));
    reveal_strlit("dumpon");
    assert(is_ascii("dumpon"));
    reveal_strlit("dumpvars");
    assert(is_ascii("dumpvars"));
    assert("end".spec_bytes().len() == 3);
    assert("comment".spec_bytes().len() == 7);
    assert("date".spec_bytes().len() == 4);
    assert("version".spec_bytes().len() == 7);
    assert("timescale".spec_bytes().len() == 9);
    assert("scope".spec_bytes().len() == 5);
    assert("upscope".spec_bytes().len() == 7);
    assert("var".spec_bytes().len() == 3);
    assert("enddefinitions".spec_bytes().len() == 14);
    assert("dumpall".spec_bytes().len() == 7);
    assert("dumpoff".spec_bytes().len() == 7);
    assert("dumpon".spec_bytes().len() == 6);
    assert("dumpvars".spec_bytes().len() == 8);
    assert("end".spec_bytes()[0] != "var".spec_bytes()[0]);
}

/// An `$end` read while no simulation command is open fails as unmatched.
pub proof fn lemma_unmatched_end_fails(s: Seq<u8>, p: int)
    requires
        0 <= p <= s.len(),
        skip_ws(s, p) < s.len(),
        s[skip_ws(s, p)] == 36,
        token(s, skip_ws(s, p) + 1, 16) matches Ok((k, _)) && k == "end".spec_bytes(),
    ensures
        step(s, p, None) == Step::Fail(Error::UnmatchedEnd),
{
    lemma_end_keyword_distinct();
    reveal(step);
    reveal(dollar_command);
}

/// A text field (`$comment`, `$date`, `$version`) holds exactly what stands
/// between its keyword and the first `$end` after it, decoded and trimmed.
pub proof fn lemma_text_field_content(s: Seq<u8>, p: int, j: int)
    requires
        0 <= p,
        p + 4 <= j <= s.len(),
        end_marker(s, j),
        forall|k: int| p + 4 <= k < j ==> !end_marker(s, k),
        decode_utf8(s.subrange(p, j - 4)) is Some,
    ensures
        text_field(s, p) == Ok::<(Seq<char>, int), Error>(
            (trimmed(decode_utf8(s.subrange(p, j - 4))->0), j),
        ),
{
    lemma_find_marker_first(s, p + 4, j);
}

proof fn lemma_find_marker_first(s: Seq<u8>, i: int, j: int)
    requires
        i <= j <= s.len(),
        end_marker(s, j),
        forall|k: int| i <= k < j ==> !end_marker(s, k),
    ensures
        find_marker(s, i) == j,
    decreases j - i,
{
    if i < j {
        lemma_find_marker_first(s, i + 1, j);
    }
}

} // verus!
