//! The text of cells as literals of a query: numbers bare, texts, dates,
//! instants, documents and UUIDs inside single quotes, lists in brackets.

use crate::cell::{Cell, Real32, Real64};
use crate::error::{FdwError, ParseKind};
use crate::text::{int_text, push_int, push_str, string_of};
use vstd::prelude::*;

verus! {

/// The characters of `s`, each single quote written twice.
pub open spec fn escape_quotes(s: Seq<char>) -> Seq<char>
    decreases s.len(),
{
    if s.len() == 0 {
        Seq::empty()
    } else if s.last() == '\'' {
        escape_quotes(s.drop_last()).push('\'').push('\'')
    } else {
        escape_quotes(s.drop_last()).push(s.last())
    }
}

/// The text `s` as a quoted literal.
pub open spec fn quoted(s: Seq<char>) -> Seq<char> {
    seq!['\''] + escape_quotes(s) + seq!['\'']
}

/// The characters of `s` without its single quotes.
pub open spec fn strip_quotes(s: Seq<char>) -> Seq<char>
    decreases s.len(),
{
    if s.len() == 0 {
        Seq::empty()
    } else if s.last() == '\'' {
        strip_quotes(s.drop_last())
    } else {
        strip_quotes(s.drop_last()).push(s.last())
    }
}

/// The parts in order, with `sep` between neighbours.
pub open spec fn join(parts: Seq<Seq<char>>, sep: Seq<char>) -> Seq<char>
    decreases parts.len(),
{
    if parts.len() == 0 {
        Seq::empty()
    } else if parts.len() == 1 {
        parts[0]
    } else {
        join(parts.drop_last(), sep) + sep + parts.last()
    }
}

/// The character of a hexadecimal digit, in lower case.
pub open spec fn hex_char(n: int) -> char {
    if n == 0 {
        '0'
    } else if n == 1 {
        '1'
    } else if n == 2 {
        '2'
    } else if n == 3 {
        '3'
    } else if n == 4 {
        '4'
    } else if n == 5 {
        '5'
    } else if n == 6 {
        '6'
    } else if n == 7 {
        '7'
    } else if n == 8 {
        '8'
    } else if n == 9 {
        '9'
    } else if n == 10 {
        'a'
    } else if n == 11 {
        'b'
    } else if n == 12 {
        'c'
    } else if n == 13 {
        'd'
    } else if n == 14 {
        'e'
    } else {
        'f'
    }
}

/// The hexadecimal digit of `v` at place `i`, place 0 being the most
/// significant of the 32.
pub open spec fn uuid_nibble(v: u128, i: int) -> int {
    (v as int / pow16((31 - i) as nat) as int) % 16
}

/// Sixteen to the power `n`.
pub open spec fn pow16(n: nat) -> nat
    decreases n,
{
    if n == 0 {
        1
    } else {
        16 * pow16((n - 1) as nat)
    }
}

/// The text of the first `n` hexadecimal digits of a UUID, with a hyphen
/// in front of the digits at places 8, 12, 16 and 20.
pub open spec fn uuid_prefix(v: u128, n: nat) -> Seq<char>
    decreases n,
{
    if n == 0 {
        Seq::empty()
    } else {
        let i = (n - 1) as int;
        let before = uuid_prefix(v, (n - 1) as nat);
        let sep = if i == 8 || i == 12 || i == 16 || i == 20 {
            before.push('-')
        } else {
            before
        };
        sep.push(hex_char(uuid_nibble(v, i)))
    }
}

/// The text of a UUID: 32 hexadecimal digits in lower case, in groups of
/// 8, 4, 4, 4 and 12 with hyphens between.
pub open spec fn uuid_text(v: u128) -> Seq<char> {
    uuid_prefix(v, 32)
}

/// The character of a hexadecimal digit.
pub(crate) fn hex_digit_to_char(n: u8) -> (c: char)
    requires
        n < 16,
    ensures
        c == hex_char(n as int),
{
    if n == 0 {
        '0'
    } else if n == 1 {
        '1'
    } else if n == 2 {
        '2'
    } else if n == 3 {
        '3'
    } else if n == 4 {
        '4'
    } else if n == 5 {
        '5'
    } else if n == 6 {
        '6'
    } else if n == 7 {
        '7'
    } else if n == 8 {
        '8'
    } else if n == 9 {
        '9'
    } else if n == 10 {
        'a'
    } else if n == 11 {
        'b'
    } else if n == 12 {
        'c'
    } else if n == 13 {
        'd'
    } else if n == 14 {
        'e'
    } else {
        'f'
    }
}

/// Appends the text of a UUID to `buf`.
pub fn push_uuid(buf: &mut Vec<char>, v: u128)
    ensures
        final(buf)@ == old(buf)@ + uuid_text(v),
{
    let ghost start = buf@;
    let mut digits: Vec<u8> = Vec::new();
    let mut rest: u128 = v;
    let mut j: usize = 0;
    assert(pow16(0) == 1);
    // Collect the digits from the least significant up.
    while j < 32
        invariant
            j <= 32,
            digits.len() == j,
            rest as int == v as int / pow16(j as nat) as int,
            forall|t: int| 0 <= t < j ==> #[trigger] digits[t] as int == uuid_nibble(v, 31 - t),
        decreases 32 - j,
    {
        let d: u8 = (rest % 16) as u8;
        proof {
            lemma_pow16_step(v, j as nat);
        }
        digits.push(d);
        rest = rest / 16;
        j += 1;
    }
    let mut i: usize = 0;
    while i < 32
        invariant
            i <= 32,
            digits.len() == 32,
            buf@ == start + uuid_prefix(v, i as nat),
            forall|t: int| 0 <= t < 32 ==> #[trigger] digits[t] as int == uuid_nibble(v, 31 - t),
        decreases 32 - i,
    {
        if i == 8 || i == 12 || i == 16 || i == 20 {
            buf.push('-');
        }
        let d = digits[31 - i];
        assert(d as int == uuid_nibble(v, i as int));
        assert(0 <= uuid_nibble(v, i as int) < 16);
        buf.push(hex_digit_to_char(d));
        i += 1;
    }
}

/// Dividing by sixteen once more moves one digit further.
pub proof fn lemma_pow16_step(v: u128, j: nat)
    ensures
        pow16(j) > 0,
        (v as int / pow16(j) as int) / 16 == v as int / pow16(j + 1) as int,
    decreases j,
{
    if j > 0 {
        lemma_pow16_step(v, (j - 1) as nat);
    }
    let p = pow16(j) as int;
    assert(pow16(j + 1) == 16 * pow16(j));
    assert((v as int / p) / 16 == v as int / (p * 16)) by (nonlinear_arith)
        requires
            p > 0,
            v >= 0,
    ;
    assert(p * 16 == 16 * p);
}

/// Appends `s` as a quoted literal to `buf`.
pub fn push_quoted(buf: &mut Vec<char>, s: &str)
    ensures
        final(buf)@ == old(buf)@ + quoted(s@),
{
    let ghost start = buf@;
    buf.push('\'');
    for c in it: s.chars()
        invariant
            buf@ == start.push('\'') + escape_quotes(s@.take(it.index() as int)),
            it.seq() == s@,
    {
        proof {
            let next = s@.take(it.index() + 1);
            assert(next.drop_last() == s@.take(it.index() as int));
            assert(next.last() == c);
        }
        if c == '\'' {
            buf.push('\'');
            buf.push('\'');
        } else {
            buf.push(c);
        }
    }
    assert(s@.take(s@.len() as int) == s@);
    buf.push('\'');
    assert(buf@ == start + quoted(s@));
}

/// The characters of `s` without its single quotes.
pub fn without_quotes(s: &str) -> (r: String)
    ensures
        r@ == strip_quotes(s@),
{
    let mut buf: Vec<char> = Vec::new();
    for c in it: s.chars()
        invariant
            buf@ == strip_quotes(s@.take(it.index() as int)),
            it.seq() == s@,
    {
        proof {
            let next = s@.take(it.index() + 1);
            assert(next.drop_last() == s@.take(it.index() as int));
            assert(next.last() == c);
        }
        if c != '\'' {
            buf.push(c);
        }
    }
    assert(s@.take(s@.len() as int) == s@);
    string_of(&buf)
}

/// A value that can stand in a list literal.
pub trait Literal {
    /// The value's text as a literal.
    spec fn spec_literal(&self) -> Seq<char>;

    /// Appends the value's literal to `buf`.
    fn push_literal(&self, buf: &mut Vec<char>)
        ensures
            final(buf)@ == old(buf)@ + self.spec_literal(),
    ;
}

/// The text of a truth value.
pub open spec fn bool_text(b: bool) -> Seq<char> {
    if b {
        "true"@
    } else {
        "false"@
    }
}

impl Literal for bool {
    open spec fn spec_literal(&self) -> Seq<char> {
        bool_text(*self)
    }

    fn push_literal(&self, buf: &mut Vec<char>) {
        if *self {
            push_str(buf, "true");
        } else {
            push_str(buf, "false");
        }
    }
}

impl Literal for i16 {
    open spec fn spec_literal(&self) -> Seq<char> {
        int_text(*self as int)
    }

    fn push_literal(&self, buf: &mut Vec<char>) {
        push_int(buf, *self as i128);
    }
}

impl Literal for i32 {
    open spec fn spec_literal(&self) -> Seq<char> {
        int_text(*self as int)
    }

    fn push_literal(&self, buf: &mut Vec<char>) {
        push_int(buf, *self as i128);
    }
}

impl Literal for i64 {
    open spec fn spec_literal(&self) -> Seq<char> {
        int_text(*self as int)
    }

    fn push_literal(&self, buf: &mut Vec<char>) {
        push_int(buf, *self as i128);
    }
}

impl Literal for Real32 {
    open spec fn spec_literal(&self) -> Seq<char> {
        self.text@
    }

    fn push_literal(&self, buf: &mut Vec<char>) {
        push_str(buf, self.text.as_str());
    }
}

impl Literal for Real64 {
    open spec fn spec_literal(&self) -> Seq<char> {
        self.text@
    }

    fn push_literal(&self, buf: &mut Vec<char>) {
        push_str(buf, self.text.as_str());
    }
}

impl Literal for String {
    open spec fn spec_literal(&self) -> Seq<char> {
        quoted(self@)
    }

    fn push_literal(&self, buf: &mut Vec<char>) {
        push_quoted(buf, self.as_str());
    }
}

/// The literal of a list's item: `null` for an absent one.
pub open spec fn item_text<T: Literal>(o: Option<T>) -> Seq<char> {
    match o {
        Some(x) => x.spec_literal(),
        None => "null"@,
    }
}

/// The literals of a list's items.
pub open spec fn item_texts<T: Literal>(s: Seq<Option<T>>) -> Seq<Seq<char>> {
    Seq::new(s.len(), |i: int| item_text(s[i]))
}

/// The literal of a list: its items between brackets, with commas.
pub open spec fn list_text<T: Literal>(s: Seq<Option<T>>) -> Seq<char> {
    seq!['['] + join(item_texts(s), seq![',']) + seq![']']
}

/// Appends the literal of a list to `buf`.
pub fn push_list<T: Literal>(buf: &mut Vec<char>, v: &Vec<Option<T>>)
    ensures
        final(buf)@ == old(buf)@ + list_text(v@),
{
    let ghost start = buf@;
    buf.push('[');
    let mut i: usize = 0;
    while i < v.len()
        invariant
            i <= v.len(),
            buf@ == start.push('[') + join(item_texts(v@.take(i as int)), seq![',']),
        decreases v.len() - i,
    {
        proof {
            let next = item_texts(v@.take(i + 1));
            assert(next.drop_last() == item_texts(v@.take(i as int)));
            assert(next.last() == item_text(v@[i as int]));
        }
        if i > 0 {
            buf.push(',');
        }
        match &v[i] {
            Some(x) => {
                x.push_literal(buf);
            },
            None => {
                push_str(buf, "null");
            },
        }
        i += 1;
    }
    assert(v@.take(v.len() as int) == v@);
    buf.push(']');
    assert(buf@ == start + list_text(v@));
}

/// The text of a cell as a literal; `None` where the cell holds a decimal
/// number that is not well formed, or a date or an instant that the
/// calendar cannot write.
pub open spec fn cell_text(c: Cell) -> Option<Seq<char>> {
    match c {
        Cell::Bool(v) => Some(bool_text(v)),
        Cell::I8(v) => Some(int_text(v as int)),
        Cell::I16(v) => Some(int_text(v as int)),
        Cell::F32(v) => Some(v.text@),
        Cell::I32(v) => Some(int_text(v as int)),
        Cell::F64(v) => Some(v.text@),
        Cell::I64(v) => Some(int_text(v as int)),
        Cell::Numeric(n) => if n.wf() {
            Some(n.spec_text())
        } else {
            None
        },
        Cell::String(s) => Some(quoted(s@)),
        Cell::Date(d) => match d.spec_plain_text() {
            Some(t) => Some(quoted(t)),
            None => None,
        },
        Cell::Timestamp(t) => match t.spec_plain_text() {
            Some(t) => Some(quoted(t)),
            None => None,
        },
        Cell::Timestamptz(t) => match t.spec_plain_text() {
            Some(t) => Some(quoted(t)),
            None => None,
        },
        Cell::Json(s) => Some(quoted(s@)),
        Cell::Uuid(u) => Some(seq!['\''] + uuid_text(u) + seq!['\'']),
        Cell::BoolArray(v) => Some(list_text(v@)),
        Cell::I16Array(v) => Some(list_text(v@)),
        Cell::I32Array(v) => Some(list_text(v@)),
        Cell::I64Array(v) => Some(list_text(v@)),
        Cell::F32Array(v) => Some(list_text(v@)),
        Cell::F64Array(v) => Some(list_text(v@)),
        Cell::StringArray(v) => Some(list_text(v@)),
    }
}

/// The error that a cell without a text gives.
pub open spec fn cell_text_error(c: Cell) -> ParseKind {
    match c {
        Cell::Numeric(_) => ParseKind::Decimal,
        Cell::Date(_) => ParseKind::Date,
        _ => ParseKind::Timestamp,
    }
}

impl Cell {
    /// Appends the cell's literal to `buf`. On an error `buf` is left as
    /// it was.
    pub fn push_text(&self, buf: &mut Vec<char>) -> (r: Result<(), FdwError>)
        ensures
            match cell_text(*self) {
                Some(t) => r is Ok && final(buf)@ == old(buf)@ + t,
                None => r matches Err(e) && e@ == crate::error::FdwErrorView::ValueParse(
                    cell_text_error(*self),
                ) && final(buf)@ == old(buf)@,
            },
    {
        match self {
            Cell::Bool(v) => v.push_literal(buf),
            Cell::I8(v) => push_int(buf, *v as i128),
            Cell::I16(v) => push_int(buf, *v as i128),
            Cell::F32(v) => push_str(buf, v.text.as_str()),
            Cell::I32(v) => push_int(buf, *v as i128),
            Cell::F64(v) => push_str(buf, v.text.as_str()),
            Cell::I64(v) => push_int(buf, *v as i128),
            Cell::Numeric(n) => {
                if n.scale <= crate::numeric::MAX_SCALE && (n.magnitude != 0 || !n.negative) {
                    n.push_text(buf);
                } else {
                    return Err(FdwError::ValueParse(ParseKind::Decimal));
                }
            },
            Cell::String(s) => push_quoted(buf, s.as_str()),
            Cell::Date(d) => match d.plain_text() {
                Some(t) => push_quoted(buf, t.as_str()),
                None => {
                    return Err(FdwError::ValueParse(ParseKind::Date));
                },
            },
            Cell::Timestamp(t) => match t.plain_text() {
                Some(t) => push_quoted(buf, t.as_str()),
                None => {
                    return Err(FdwError::ValueParse(ParseKind::Timestamp));
                },
            },
            Cell::Timestamptz(t) => match t.plain_text() {
                Some(t) => push_quoted(buf, t.as_str()),
                None => {
                    return Err(FdwError::ValueParse(ParseKind::Timestamp));
                },
            },
            Cell::Json(s) => push_quoted(buf, s.as_str()),
            Cell::Uuid(u) => {
                buf.push('\'');
                push_uuid(buf, *u);
                buf.push('\'');
                assert(buf@ == old(buf)@ + (seq!['\''] + uuid_text(*u) + seq!['\'']));
            },
            Cell::BoolArray(v) => push_list(buf, v),
            Cell::I16Array(v) => push_list(buf, v),
            Cell::I32Array(v) => push_list(buf, v),
            Cell::I64Array(v) => push_list(buf, v),
            Cell::F32Array(v) => push_list(buf, v),
            Cell::F64Array(v) => push_list(buf, v),
            Cell::StringArray(v) => push_list(buf, v),
        }
        Ok(())
    }

    /// The cell's text as a literal.
    pub fn to_text(&self) -> (r: Result<String, FdwError>)
        ensures
            match cell_text(*self) {
                Some(t) => r matches Ok(s) && s@ == t,
                None => r matches Err(e) && e@ == crate::error::FdwErrorView::ValueParse(
                    cell_text_error(*self),
                ),
            },
    {
        let mut buf: Vec<char> = Vec::new();
        match self.push_text(&mut buf) {
            Ok(()) => Ok(string_of(&buf)),
            Err(e) => Err(e),
        }
    }
}

} // verus!
