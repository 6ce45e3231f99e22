use vstd::prelude::*;

use vstd::string::StringSliceAdditionalSpecFns;

use crate::types::{IdCode, ScopeType, TimescaleUnit, Value, VarType};

verus! {

/// Space, line feed, carriage return and tab separate tokens.
pub open spec fn is_ws(b: u8) -> bool {
    b == 32 || b == 10 || b == 13 || b == 9
}

pub fn whitespace_byte(b: u8) -> (r: bool)
    ensures
        r == is_ws(b),
{
    b == 32 || b == 10 || b == 13 || b == 9
}

/// The first index at or after `i` that holds no whitespace byte, or the length.
pub open spec fn skip_ws(s: Seq<u8>, i: int) -> int
    decreases s.len() - i,
{
    if i >= s.len() {
        s.len() as int
    } else if is_ws(s[i]) {
        skip_ws(s, i + 1)
    } else {
        i
    }
}

/// The first index at or after `i` that holds a whitespace byte, or the length.
pub open spec fn token_end(s: Seq<u8>, i: int) -> int
    decreases s.len() - i,
{
    if i >= s.len() {
        s.len() as int
    } else if is_ws(s[i]) {
        i
    } else {
        token_end(s, i + 1)
    }
}

pub proof fn lemma_skip_ws_bounds(s: Seq<u8>, i: int)
    requires
        0 <= i <= s.len(),
    ensures
        i <= skip_ws(s, i) <= s.len(),
        skip_ws(s, i) < s.len() ==> !is_ws(s[skip_ws(s, i)]),
    decreases s.len() - i,
{
    if i < s.len() && is_ws(s[i]) {
        lemma_skip_ws_bounds(s, i + 1);
    }
}

pub proof fn lemma_token_end_bounds(s: Seq<u8>, i: int)
    requires
        0 <= i <= s.len(),
    ensures
        i <= token_end(s, i) <= s.len(),
        forall|k: int| i <= k < token_end(s, i) ==> !is_ws(#[trigger] s[k]),
    decreases s.len() - i,
{
    if i < s.len() && !is_ws(s[i]) {
        lemma_token_end_bounds(s, i + 1);
    }
}

/// What `String::from_utf8` makes of a byte sequence: its characters, or
/// nothing where the bytes are not well-formed UTF-8.
pub uninterp spec fn decode_utf8(b: Seq<u8>) -> Option<Seq<char>>;

/// What `str::trim` leaves of a text.
pub uninterp spec fn trimmed(s: Seq<char>) -> Seq<char>;

/// Relies on `String::from_utf8`: it succeeds exactly on well-formed UTF-8, and
/// what it returns depends on the bytes alone.
#[verifier::external_body]
pub(crate) fn utf8_text(b: &Vec<u8>) -> (r: Option<String>)
    ensures
        match r {
            Some(t) => decode_utf8(b@) == Some(t@),
            None => decode_utf8(b@) is None,
        },
{
    String::from_utf8(b.clone()).ok()
}

/// Relies on `str::trim`: the result depends on the characters alone.
#[verifier::external_body]
pub(crate) fn trim_text(s: &String) -> (r: String)
    ensures
        r@ == trimmed(s@),
{
    s.trim().to_string()
}

/// Whether the bytes of `t` are those of `w`.
pub(crate) fn bytes_eq(t: &[u8], w: &str) -> (r: bool)
    ensures
        r == (t@ == w.spec_bytes()),
{
    let b = w.as_bytes();
    if t.len() != b.len() {
        return false;
    }
    let mut i: usize = 0;
    while i < t.len()
        invariant
            t@.len() == b@.len(),
            b@ == w.spec_bytes(),
            0 <= i <= t@.len(),
            forall|k: int| 0 <= k < i ==> t@[k] == b@[k],
        decreases t@.len() - i,
    {
        if t[i] != b[i] {
            return false;
        }
        i = i + 1;
    }
    assert(t@ =~= b@);
    true
}

/// The logic value a byte stands for.
pub open spec fn value_of(b: u8) -> Option<Value> {
    if b == 48 {
        Some(Value::V0)
    } else if b == 49 {
        Some(Value::V1)
    } else if b == 120 || b == 88 {
        Some(Value::X)
    } else if b == 122 || b == 90 {
        Some(Value::Z)
    } else {
        None
    }
}

/// `0`, `1`, `x`/`X` and `z`/`Z` are logic values; other bytes are not.
pub fn parse_value(b: u8) -> (r: Option<Value>)
    ensures
        r == value_of(b),
{
    if b == 48 {
        Some(Value::V0)
    } else if b == 49 {
        Some(Value::V1)
    } else if b == 120 || b == 88 {
        Some(Value::X)
    } else if b == 122 || b == 90 {
        Some(Value::Z)
    } else {
        None
    }
}

/// Decimal value of a sequence of ASCII digits, most significant first.
pub open spec fn uint_value(d: Seq<u8>) -> nat
    decreases d.len(),
{
    if d.len() == 0 {
        0
    } else {
        uint_value(d.drop_last()) * 10 + (d.last() - 48) as nat
    }
}

pub open spec fn all_digits(d: Seq<u8>) -> bool {
    forall|i: int| 0 <= i < d.len() ==> 48 <= #[trigger] d[i] <= 57
}

/// An unsigned decimal number: an optional `+`, then one or more digits,
/// whose value is at most `max`.
pub open spec fn parse_uint(t: Seq<u8>, max: nat) -> Option<nat> {
    let d = if t.len() > 0 && t[0] == 43 {
        t.drop_first()
    } else {
        t
    };
    if d.len() > 0 && all_digits(d) && uint_value(d) <= max {
        Some(uint_value(d))
    } else {
        None
    }
}

proof fn lemma_uint_prefix_le(d: Seq<u8>, k: int)
    requires
        0 <= k <= d.len(),
        all_digits(d),
    ensures
        uint_value(d.subrange(0, k)) <= uint_value(d),
    decreases d.len() - k,
{
    if k < d.len() {
        lemma_uint_prefix_le(d, k + 1);
        assert(d.subrange(0, k + 1).drop_last() =~= d.subrange(0, k));
        assert(uint_value(d.subrange(0, k + 1)) == uint_value(d.subrange(0, k)) * 10 + (d[k]
            - 48) as nat);
    } else {
        assert(d.subrange(0, k) =~= d);
    }
}

/// Reads an unsigned decimal number of at most `max`.
pub fn parse_decimal(t: &[u8], max: u64) -> (r: Option<u64>)
    requires
        max >= 9,
    ensures
        match r {
            Some(n) => parse_uint(t@, max as nat) == Some(n as nat),
            None => parse_uint(t@, max as nat) is None,
        },
{
    let start: usize = if t.len() > 0 && t[0] == 43 {
        1
    } else {
        0
    };
    let ghost d = if t@.len() > 0 && t@[0] == 43 {
        t@.drop_first()
    } else {
        t@
    };
    assert(d =~= t@.subrange(start as int, t@.len() as int));
    assert(parse_uint(t@, max as nat) == if d.len() > 0 && all_digits(d) && uint_value(d)
        <= max as nat {
        Some(uint_value(d))
    } else {
        None
    });
    if start == t.len() {
        return None;
    }
    let mut acc: u64 = 0;
    let mut i: usize = start;
    while i < t.len()
        invariant
            start <= i <= t@.len(),
            d =~= t@.subrange(start as int, t@.len() as int),
            parse_uint(t@, max as nat) == if d.len() > 0 && all_digits(d) && uint_value(d)
                <= max as nat {
                Some(uint_value(d))
            } else {
                None
            },
            max >= 9,
            acc as nat == uint_value(d.subrange(0, i - start)),
            acc <= max,
            forall|k: int| 0 <= k < i - start ==> 48 <= #[trigger] d[k] <= 57,
        decreases t@.len() - i,
    {
        let b = t[i];
        if b < 48 || b > 57 {
            assert(d[i - start] == b);
            assert(!all_digits(d));
            return None;
        }
        let dg: u64 = (b - 48) as u64;
        assert(d.subrange(0, i + 1 - start).drop_last() =~= d.subrange(0, i - start));
        assert(d.subrange(0, i + 1 - start).last() == b);
        if acc > (max - dg) / 10 {
            proof {
                assert(acc * 10 + dg > max) by (nonlinear_arith)
                    requires
                        acc > (max - dg) / 10,
                        dg <= 9,
                        max >= 9,
                ;
                assert(uint_value(d.subrange(0, i + 1 - start)) == acc * 10 + dg);
                if all_digits(d) {
                    lemma_uint_prefix_le(d, i + 1 - start);
                }
                assert(parse_uint(t@, max as nat) is None);
            }
            return None;
        }
        proof {
            assert(acc * 10 + dg <= max) by (nonlinear_arith)
                requires
                    acc <= (max - dg) / 10,
                    dg <= 9,
                    max >= 9,
            ;
        }
        acc = acc * 10 + dg;
        i = i + 1;
    }
    assert(d.subrange(0, i - start) =~= d);
    Some(acc)
}

/// Value of an identifier code: base 94 over the bytes `!`..`~`, the first
/// byte least significant.
pub open spec fn id_code_value(t: Seq<u8>) -> nat
    decreases t.len(),
{
    if t.len() == 0 {
        0
    } else {
        (t[0] - 33) as nat + 94 * id_code_value(t.drop_first())
    }
}

pub open spec fn id_chars(t: Seq<u8>) -> bool {
    forall|i: int| 0 <= i < t.len() ==> 33 <= #[trigger] t[i] <= 126
}

/// The identifier code a token stands for, where its bytes are printable and
/// its value fits in 64 bits.
pub open spec fn id_code_of(t: Seq<u8>) -> Option<IdCode> {
    if id_chars(t) && id_code_value(t) <= u64::MAX {
        Some(IdCode(id_code_value(t) as u64))
    } else {
        None
    }
}

proof fn lemma_id_suffix_le(t: Seq<u8>, i: int)
    requires
        0 <= i <= t.len(),
        id_chars(t),
    ensures
        id_code_value(t.subrange(i, t.len() as int)) <= id_code_value(t),
    decreases i,
{
    if i == 0 {
        assert(t.subrange(0, t.len() as int) =~= t);
    } else {
        lemma_id_suffix_le(t, i - 1);
        assert(t.subrange(i - 1, t.len() as int).drop_first() =~= t.subrange(i, t.len() as int));
    }
}

pub fn parse_id_code(t: &[u8]) -> (r: Option<IdCode>)
    ensures
        r == id_code_of(t@),
{
    let mut acc: u64 = 0;
    let mut i: usize = t.len();
    assert(t@.subrange(i as int, t@.len() as int) =~= Seq::<u8>::empty());
    while i > 0
        invariant
            0 <= i <= t@.len(),
            acc as nat == id_code_value(t@.subrange(i as int, t@.len() as int)),
            forall|k: int| i <= k < t@.len() ==> 33 <= #[trigger] t@[k] <= 126,
        decreases i,
    {
        let b = t[i - 1];
        if b < 33 || b > 126 {
            return None;
        }
        let dg: u64 = (b - 33) as u64;
        assert(t@.subrange(i - 1, t@.len() as int).drop_first() =~= t@.subrange(
            i as int,
            t@.len() as int,
        ));
        if acc > (u64::MAX - dg) / 94 {
            proof {
                assert(dg + 94 * acc > u64::MAX) by (nonlinear_arith)
                    requires
                        acc > (u64::MAX - dg) / 94,
                        dg <= 93,
                ;
                if id_chars(t@) {
                    lemma_id_suffix_le(t@, i - 1);
                }
            }
            return None;
        }
        proof {
            assert(dg + 94 * acc <= u64::MAX) by (nonlinear_arith)
                requires
                    acc <= (u64::MAX - dg) / 94,
                    dg <= 93,
            ;
        }
        acc = dg + 94 * acc;
        i = i - 1;
    }
    assert(t@.subrange(0, t@.len() as int) =~= t@);
    Some(IdCode(acc))
}

pub open spec fn scope_type_of(t: Seq<u8>) -> Option<ScopeType> {
    if t == "module".spec_bytes() {
        Some(ScopeType::Module)
    } else if t == "task".spec_bytes() {
        Some(ScopeType::Task)
    } else if t == "function".spec_bytes() {
        Some(ScopeType::Function)
    } else if t == "begin".spec_bytes() {
        Some(ScopeType::Begin)
    } else if t == "fork".spec_bytes() {
        Some(ScopeType::Fork)
    } else {
        None
    }
}

pub fn parse_scope_type(t: &[u8]) -> (r: Option<ScopeType>)
    ensures
        r == scope_type_of(t@),
{
    if bytes_eq(t, "module") {
        Some(ScopeType::Module)
    } else if bytes_eq(t, "task") {
        Some(ScopeType::Task)
    } else if bytes_eq(t, "function") {
        Some(ScopeType::Function)
    } else if bytes_eq(t, "begin") {
        Some(ScopeType::Begin)
    } else if bytes_eq(t, "fork") {
        Some(ScopeType::Fork)
    } else {
        None
    }
}

pub open spec fn var_type_of(t: Seq<u8>) -> Option<VarType> {
    if t == "event".spec_bytes() {
        Some(VarType::Event)
    } else if t == "integer".spec_bytes() {
        Some(VarType::Integer)
    } else if t == "parameter".spec_bytes() {
        Some(VarType::Parameter)
    } else if t == "real".spec_bytes() {
        Some(VarType::Real)
    } else if t == "reg".spec_bytes() {
        Some(VarType::Reg)
    } else if t == "supply0".spec_bytes() {
        Some(VarType::Supply0)
    } else if t == "supply1".spec_bytes() {
        Some(VarType::Supply1)
    } else if t == "time".spec_bytes() {
        Some(VarType::Time)
    } else if t == "tri".spec_bytes() {
        Some(VarType::Tri)
    } else if t == "triand".spec_bytes() {
        Some(VarType::TriAnd)
    } else if t == "trior".spec_bytes() {
        Some(VarType::TriOr)
    } else if t == "trireg".spec_bytes() {
        Some(VarType::TriReg)
    } else if t == "tri0".spec_bytes() {
        Some(VarType::Tri0)
    } else if t == "tri1".spec_bytes() {
        Some(VarType::Tri1)
    } else if t == "wand".spec_bytes() {
        Some(VarType::WAnd)
    } else if t == "wire".spec_bytes() {
        Some(VarType::Wire)
    } else if t == "wor".spec_bytes() {
        Some(VarType::WOr)
    } else {
        None
    }
}

pub fn parse_var_type(t: &[u8]) -> (r: Option<VarType>)
    ensures
        r == var_type_of(t@),
{
    if bytes_eq(t, "event") {
        Some(VarType::Event)
    } else if bytes_eq(t, "integer") {
        Some(VarType::Integer)
    } else if bytes_eq(t, "parameter") {
        Some(VarType::Parameter)
    } else if bytes_eq(t, "real") {
        Some(VarType::Real)
    } else if bytes_eq(t, "reg") {
        Some(VarType::Reg)
    } else if bytes_eq(t, "supply0") {
        Some(VarType::Supply0)
    } else if bytes_eq(t, "supply1") {
        Some(VarType::Supply1)
    } else if bytes_eq(t, "time") {
        Some(VarType::Time)
    } else if bytes_eq(t, "tri") {
        Some(VarType::Tri)
    } else if bytes_eq(t, "triand") {
        Some(VarType::TriAnd)
    } else if bytes_eq(t, "trior") {
        Some(VarType::TriOr)
    } else if bytes_eq(t, "trireg") {
        Some(VarType::TriReg)
    } else if bytes_eq(t, "tri0") {
        Some(VarType::Tri0)
    } else if bytes_eq(t, "tri1") {
        Some(VarType::Tri1)
    } else if bytes_eq(t, "wand") {
        Some(VarType::WAnd)
    } else if bytes_eq(t, "wire") {
        Some(VarType::Wire)
    } else if bytes_eq(t, "wor") {
        Some(VarType::WOr)
    } else {
        None
    }
}

pub open spec fn timescale_unit_of(t: Seq<u8>) -> Option<TimescaleUnit> {
    if t == "s".spec_bytes() {
        Some(TimescaleUnit::S)
    } else if t == "ms".spec_bytes() {
        Some(TimescaleUnit::MS)
    } else if t == "us".spec_bytes() {
        Some(TimescaleUnit::US)
    } else if t == "ns".spec_bytes() {
        Some(TimescaleUnit::NS)
    } else if t == "ps".spec_bytes() {
        Some(TimescaleUnit::PS)
    } else if t == "fs".spec_bytes() {
        Some(TimescaleUnit::FS)
    } else {
        None
    }
}

pub fn parse_timescale_unit(t: &[u8]) -> (r: Option<TimescaleUnit>)
    ensures
        r == timescale_unit_of(t@),
{
    if bytes_eq(t, "s") {
        Some(TimescaleUnit::S)
    } else if bytes_eq(t, "ms") {
        Some(TimescaleUnit::MS)
    } else if bytes_eq(t, "us") {
        Some(TimescaleUnit::US)
    } else if bytes_eq(t, "ns") {
        Some(TimescaleUnit::NS)
    } else if bytes_eq(t, "ps") {
        Some(TimescaleUnit::PS)
    } else if bytes_eq(t, "fs") {
        Some(TimescaleUnit::FS)
    } else {
        None
    }
}

} // verus!
