//! The pushdown compiler: from the shape of a query and a table option to
//! the text of the one query that the remote system is asked.

use crate::cell::{Cell, Column, Limit, Qual, Sort, Value};
use crate::error::{FdwError, FdwErrorView, ParseKind};
use crate::literal::{cell_text, cell_text_error, join};
use crate::text::{chars_of, int_text, push_chars, push_int, push_str, same_text, string_of};
use vstd::prelude::*;

verus! {

/// The places where `regex` finds a pattern in a text: for each match in
/// turn the number of bytes of the text, in UTF-8, before it and before
/// its end. `None` where `regex` does not accept the pattern.
pub uninterp spec fn regex_spans(pattern: Seq<char>, text: Seq<char>) -> Option<Seq<(int, int)>>;

/// The spans as pairs of mathematical integers.
pub open spec fn spans_of(v: Seq<(usize, usize)>) -> Seq<(int, int)> {
    Seq::new(v.len(), |i: int| (v[i].0 as int, v[i].1 as int))
}

/// Finds every match of a pattern in a text.
///
/// Compiles the pattern with `regex::Regex::new` and walks the text with
/// `Regex::find_iter`; of each match the byte offsets `start()` and `end()`
/// are handed out. Which matches a pattern has is only named; nothing is
/// taken for granted of where they lie.
#[verifier::external_body]
pub(crate) fn regex_find_spans(pattern: &str, text: &str) -> (r: Option<Vec<(usize, usize)>>)
    ensures
        match r {
            Some(v) => regex_spans(pattern@, text@) == Some(spans_of(v@)),
            None => regex_spans(pattern@, text@) is None,
        },
{
    let re = regex::Regex::new(pattern).ok()?;
    Some(re.find_iter(text).map(|m| (m.start(), m.end())).collect())
}

/// The number of bytes that a character takes in UTF-8.
pub open spec fn utf8_len(c: char) -> int {
    if (c as u32) < 0x80 {
        1
    } else if (c as u32) < 0x800 {
        2
    } else if (c as u32) < 0x1_0000 {
        3
    } else {
        4
    }
}

/// The number of bytes that a text takes in UTF-8.
pub open spec fn byte_len(s: Seq<char>) -> int
    decreases s.len(),
{
    if s.len() == 0 {
        0
    } else {
        byte_len(s.drop_last()) + utf8_len(s.last())
    }
}

/// The number of characters in front of the byte offset `b` of a text;
/// `None` where the offset lies inside a character or beyond the text.
pub open spec fn char_offset(s: Seq<char>, b: int) -> Option<int>
    decreases s.len(),
{
    if byte_len(s) == b {
        Some(s.len() as int)
    } else if s.len() == 0 {
        None
    } else {
        char_offset(s.drop_last(), b)
    }
}

/// The first `n` spans counted in characters in place of bytes; `None`
/// where an end of one of them lies inside a character or beyond the text.
pub open spec fn char_spans(s: Seq<char>, spans: Seq<(int, int)>, n: nat) -> Option<
    Seq<(int, int)>,
>
    decreases n,
{
    if n == 0 {
        Some(Seq::empty())
    } else {
        match char_spans(s, spans, (n - 1) as nat) {
            None => None,
            Some(done) => match (char_offset(s, spans[n - 1].0), char_offset(s, spans[n - 1].1)) {
                (Some(from), Some(to)) => Some(done.push((from, to))),
                _ => None,
            },
        }
    }
}

/// Once a span cannot be counted in characters, none of the longer rows of
/// spans can.
pub proof fn lemma_char_spans_fails(s: Seq<char>, spans: Seq<(int, int)>, n: nat, m: nat)
    requires
        n <= m,
        char_spans(s, spans, n) is None,
    ensures
        char_spans(s, spans, m) is None,
    decreases m,
{
    if n < m {
        lemma_char_spans_fails(s, spans, n, (m - 1) as nat);
    }
}

/// The number of bytes that a character takes in UTF-8.
pub fn char_len_utf8(c: char) -> (n: u8)
    ensures
        n == utf8_len(c),
{
    let u: u32 = c as u32;
    if u < 0x80 {
        1
    } else if u < 0x800 {
        2
    } else if u < 0x1_0000 {
        3
    } else {
        4
    }
}

/// The byte offsets of the characters of a text: at place `i` the number
/// of bytes that the first `i` characters take.
pub fn byte_offsets(chars: &Vec<char>) -> (r: Vec<u128>)
    ensures
        r.len() == chars.len() + 1,
        forall|i: int| 0 <= i <= chars.len() ==> #[trigger] r[i] == byte_len(chars@.take(i)),
{
    let mut r: Vec<u128> = Vec::new();
    let mut acc: u128 = 0;
    r.push(acc);
    assert(chars@.take(0) == Seq::<char>::empty());
    let mut i: usize = 0;
    while i < chars.len()
        invariant
            i <= chars.len(),
            r.len() == i + 1,
            acc == byte_len(chars@.take(i as int)),
            acc <= 4 * i,
            forall|j: int| 0 <= j <= i ==> #[trigger] r[j] == byte_len(chars@.take(j)),
        decreases chars.len() - i,
    {
        assert(chars@.take(i + 1).drop_last() == chars@.take(i as int));
        acc = acc + char_len_utf8(chars[i]) as u128;
        r.push(acc);
        i += 1;
    }
    r
}

/// The number of characters in front of a byte offset of a text, given
/// the byte offsets of its characters.
pub(crate) fn offset_to_index(chars: &Vec<char>, offsets: &Vec<u128>, b: usize) -> (r: Option<
    usize,
>)
    requires
        offsets.len() == chars.len() + 1,
        forall|i: int| 0 <= i <= chars.len() ==> #[trigger] offsets[i] == byte_len(chars@.take(i)),
    ensures
        match r {
            Some(i) => char_offset(chars@, b as int) == Some(i as int) && i <= chars.len(),
            None => char_offset(chars@, b as int) is None,
        },
{
    let mut i: usize = chars.len();
    assert(chars@.take(i as int) == chars@);
    loop
        invariant
            i <= chars.len(),
            offsets.len() == chars.len() + 1,
            forall|j: int|
                0 <= j <= chars.len() ==> #[trigger] offsets[j] == byte_len(chars@.take(j)),
            char_offset(chars@, b as int) == char_offset(chars@.take(i as int), b as int),
        decreases i,
    {
        if offsets[i] == b as u128 {
            return Some(i);
        }
        if i == 0 {
            return None;
        }
        assert(chars@.take(i as int).drop_last() == chars@.take(i - 1));
        i -= 1;
    }
}

/// Counts spans in characters that are given in bytes of the text's UTF-8
/// form.
pub fn spans_in_chars(text: &str, spans: &Vec<(usize, usize)>) -> (r: Option<Vec<(usize, usize)>>)
    ensures
        match r {
            Some(v) => char_spans(text@, spans_of(spans@), spans@.len()) == Some(spans_of(v@)),
            None => char_spans(text@, spans_of(spans@), spans@.len()) is None,
        },
{
    let chars = chars_of(text);
    let offsets = byte_offsets(&chars);
    let mut out: Vec<(usize, usize)> = Vec::new();
    let mut n: usize = 0;
    assert(spans_of(out@) =~= Seq::empty());
    while n < spans.len()
        invariant
            n <= spans.len(),
            chars@ == text@,
            offsets.len() == chars.len() + 1,
            forall|i: int|
                0 <= i <= chars.len() ==> #[trigger] offsets[i] == byte_len(chars@.take(i)),
            char_spans(text@, spans_of(spans@), n as nat) == Some(spans_of(out@)),
        decreases spans.len() - n,
    {
        let (s, e) = spans[n];
        assert(spans_of(spans@)[n as int] == (s as int, e as int));
        let from = offset_to_index(&chars, &offsets, s);
        let to = offset_to_index(&chars, &offsets, e);
        match (from, to) {
            (Some(from), Some(to)) => {
                out.push((from, to));
                assert(spans_of(out@) =~= char_spans(
                    text@,
                    spans_of(spans@),
                    (n + 1) as nat,
                )->0);
            },
            _ => {
                proof {
                    lemma_char_spans_fails(
                        text@,
                        spans_of(spans@),
                        (n + 1) as nat,
                        spans@.len(),
                    );
                }
                return None;
            },
        }
        n += 1;
    }
    Some(out)
}

/// The operator as the remote system writes it: `~~` is `like`, `!~~` is
/// `not like`, every other operator stands for itself.
pub open spec fn operator_text(op: Seq<char>) -> Seq<char> {
    if op == "~~"@ {
        "like"@
    } else if op == "!~~"@ {
        "not like"@
    } else {
        op
    }
}

/// Whether a predicate tests for the null: its operator is `is` or
/// `is not` and its operand the text `null`.
pub open spec fn is_null_test(q: Qual) -> bool {
    &&& (q.operator@ == "is"@ || q.operator@ == "is not"@)
    &&& q.value matches Value::Cell(Cell::String(s))
    &&& s@ == "null"@
}

/// The literals of the first `n` cells; the kind of the first cell that
/// has no text where there is one.
pub open spec fn cell_texts(cells: Seq<Cell>, n: nat) -> Result<Seq<Seq<char>>, ParseKind>
    decreases n,
{
    if n == 0 {
        Ok(Seq::empty())
    } else {
        match cell_texts(cells, (n - 1) as nat) {
            Err(k) => Err(k),
            Ok(done) => match cell_text(cells[n - 1]) {
                Some(t) => Ok(done.push(t)),
                None => Err(cell_text_error(cells[n - 1])),
            },
        }
    }
}

/// The text of a predicate's operand: a cell's literal, the bare word
/// `null` in a test for the null, and for a list its literals in round
/// brackets with commas.
pub open spec fn operand_text(q: Qual) -> Result<Seq<char>, ParseKind> {
    match q.value {
        Value::Cell(c) => if is_null_test(q) {
            Ok("null"@)
        } else {
            match cell_text(c) {
                Some(t) => Ok(t),
                None => Err(cell_text_error(c)),
            }
        },
        Value::Array(cells) => match cell_texts(cells@, cells@.len()) {
            Ok(texts) => Ok(seq!['('] + join(texts, ", "@) + seq![')']),
            Err(k) => Err(k),
        },
    }
}

/// The text of a predicate: field, operator and operand with one space
/// between.
pub open spec fn qual_text(q: Qual) -> Result<Seq<char>, ParseKind> {
    match operand_text(q) {
        Ok(t) => Ok(q.field@ + seq![' '] + operator_text(q.operator@) + seq![' '] + t),
        Err(k) => Err(k),
    }
}

/// The text of an ordering key: the field, its direction and where the
/// nulls go.
pub open spec fn sort_text(s: Sort) -> Seq<char> {
    s.field@ + (if s.ascending {
        " asc"@
    } else {
        " desc"@
    }) + (if s.nulls_first {
        " nulls first"@
    } else {
        " nulls last"@
    })
}

/// Joining one part more: the separator goes in front unless the part is
/// the first.
pub proof fn lemma_join_push(parts: Seq<Seq<char>>, sep: Seq<char>, part: Seq<char>)
    ensures
        join(parts.push(part), sep) == if parts.len() == 0 {
            part
        } else {
            join(parts, sep) + sep + part
        },
{
    assert(parts.push(part).drop_last() == parts);
}

/// Appends a part of a joined text to `buf`, with the separator in front
/// unless it is the first part.
pub fn push_part(buf: &mut Vec<char>, first: bool, sep: &str, part: &Vec<char>)
    ensures
        final(buf)@ == old(buf)@ + (if first {
            Seq::<char>::empty()
        } else {
            sep@
        }) + part@,
{
    if !first {
        push_str(buf, sep);
    }
    push_chars(buf, part);
}

impl Sort {
    /// Appends the text of the ordering key to `buf`.
    pub fn push_text(&self, buf: &mut Vec<char>)
        ensures
            final(buf)@ == old(buf)@ + sort_text(*self),
    {
        push_str(buf, self.field.as_str());
        if self.ascending {
            push_str(buf, " asc");
        } else {
            push_str(buf, " desc");
        }
        if self.nulls_first {
            push_str(buf, " nulls first");
        } else {
            push_str(buf, " nulls last");
        }
    }

    /// The text of the ordering key.
    pub fn deparse(&self) -> (s: String)
        ensures
            s@ == sort_text(*self),
    {
        let mut buf: Vec<char> = Vec::new();
        self.push_text(&mut buf);
        string_of(&buf)
    }
}

impl Qual {
    /// Appends the text of the predicate to `buf`.
    pub fn push_text(&self, buf: &mut Vec<char>) -> (r: Result<(), FdwError>)
        ensures
            match qual_text(*self) {
                Ok(t) => r is Ok && final(buf)@ == old(buf)@ + t,
                Err(k) => r matches Err(e) && e@ == FdwErrorView::ValueParse(k),
            },
    {
        let ghost start = buf@;
        push_str(buf, self.field.as_str());
        buf.push(' ');
        if same_text(self.operator.as_str(), "~~") {
            push_str(buf, "like");
        } else if same_text(self.operator.as_str(), "!~~") {
            push_str(buf, "not like");
        } else {
            push_str(buf, self.operator.as_str());
        }
        buf.push(' ');
        let ghost head = buf@;
        assert(head == start + (self.field@ + seq![' '] + operator_text(self.operator@) + seq![' ']));
        match &self.value {
            Value::Cell(c) => {
                let null_test = (same_text(self.operator.as_str(), "is") || same_text(
                    self.operator.as_str(),
                    "is not",
                )) && match c {
                    Cell::String(s) => same_text(s.as_str(), "null"),
                    _ => false,
                };
                if null_test {
                    push_str(buf, "null");
                } else {
                    match c.push_text(buf) {
                        Ok(()) => {},
                        Err(e) => {
                            return Err(e);
                        },
                    }
                }
            },
            Value::Array(cells) => {
                buf.push('(');
                let mut i: usize = 0;
                let ghost mut texts: Seq<Seq<char>> = Seq::empty();
                while i < cells.len()
                    invariant
                        i <= cells.len(),
                        self.value matches Value::Array(a) && a@ == cells@,
                        cell_texts(cells@, i as nat) == Ok::<Seq<Seq<char>>, ParseKind>(texts),
                        buf@ == head.push('(') + join(texts, ", "@),
                    decreases cells.len() - i,
                {
                    let ghost before = buf@;
                    if i > 0 {
                        push_str(buf, ", ");
                    }
                    match cells[i].push_text(buf) {
                        Ok(()) => {},
                        Err(e) => {
                            proof {
                                lemma_cell_texts_fails(cells@, (i + 1) as nat, cells@.len());
                            }
                            return Err(e);
                        },
                    }
                    proof {
                        let t = cell_text(cells@[i as int])->0;
                        lemma_join_push(texts, ", "@, t);
                        texts = texts.push(t);
                    }
                    i += 1;
                }
                buf.push(')');
                assert(buf@ == head + (seq!['('] + join(texts, ", "@) + seq![')']));
            },
        }
        Ok(())
    }

    /// The text of the predicate.
    pub fn deparse(&self) -> (r: Result<String, FdwError>)
        ensures
            match qual_text(*self) {
                Ok(t) => r matches Ok(s) && s@ == t,
                Err(k) => r matches Err(e) && e@ == FdwErrorView::ValueParse(k),
            },
    {
        let mut buf: Vec<char> = Vec::new();
        match self.push_text(&mut buf) {
            Ok(()) => Ok(string_of(&buf)),
            Err(e) => Err(e),
        }
    }
}

/// Once a cell has no text, the texts of more cells fail in the same way.
pub proof fn lemma_cell_texts_fails(cells: Seq<Cell>, n: nat, m: nat)
    requires
        n <= m,
        cell_texts(cells, n) is Err,
    ensures
        cell_texts(cells, m) == cell_texts(cells, n),
    decreases m,
{
    if n < m {
        lemma_cell_texts_fails(cells, n, (m - 1) as nat);
    }
}

/// A qualifier that a template took as a parameter: the field and the
/// cell that stands for it.
#[derive(Debug, Clone, PartialEq)]
pub struct BoundParam {
    pub field: String,
    pub cell: Cell,
}

/// The fields of bound parameters.
pub open spec fn param_fields(params: Seq<BoundParam>) -> Seq<Seq<char>> {
    Seq::new(params.len(), |i: int| params[i].field@)
}

/// The fields and cells of bound parameters.
pub open spec fn params_view(params: Seq<BoundParam>) -> Seq<(Seq<char>, crate::cell::CellView)> {
    Seq::new(params.len(), |i: int| (params[i].field@, params[i].cell@))
}

/// The pattern of a placeholder: a dollar sign and a name of word
/// characters in curly brackets.
pub open spec fn placeholder_pattern() -> Seq<char> {
    r"\$\{(\w+)\}"@
}

/// The name inside a placeholder that fills the span; `None` where the
/// span is not a dollar sign and curly brackets around something.
pub open spec fn span_name(t: Seq<char>, span: (int, int)) -> Option<Seq<char>> {
    if span.1 - span.0 >= 3 && t[span.0] == '$' && t[span.0 + 1] == '{' && t[span.1 - 1] == '}' {
        Some(t.subrange(span.0 + 2, span.1 - 1))
    } else {
        None
    }
}

/// The place of the first qualifier on the field `name`.
pub open spec fn find_qual(name: Seq<char>, quals: Seq<Qual>) -> Option<int>
    decreases quals.len(),
{
    if quals.len() == 0 {
        None
    } else {
        match find_qual(name, quals.drop_last()) {
            Some(i) => Some(i),
            None => if quals.last().field@ == name {
                Some(quals.len() - 1)
            } else {
                None
            },
        }
    }
}

/// What a placeholder named `name` is replaced with: the literal of the
/// cell of the first qualifier on that field. A list-valued qualifier, no
/// qualifier, and a cell without text are errors.
pub open spec fn param_text(name: Seq<char>, quals: Seq<Qual>) -> Result<Seq<char>, FdwErrorView> {
    match find_qual(name, quals) {
        None => Err(FdwErrorView::UnmatchedParameter(name)),
        Some(i) => match quals[i].value {
            Value::Array(_) => Err(FdwErrorView::NoArrayParameter(name)),
            Value::Cell(c) => match cell_text(c) {
                Some(t) => Ok(t),
                None => Err(FdwErrorView::ValueParse(cell_text_error(c))),
            },
        },
    }
}

/// Where the text between placeholders starts in front of span `n`.
pub open spec fn gap_start(spans: Seq<(int, int)>, n: int) -> int {
    if n == 0 {
        0
    } else {
        spans[n - 1].1
    }
}

/// The template up to the end of its `n`-th placeholder, each placeholder
/// replaced; the error of the first placeholder that cannot be replaced.
pub open spec fn expand_upto(
    t: Seq<char>,
    spans: Seq<(int, int)>,
    quals: Seq<Qual>,
    n: nat,
) -> Result<Seq<char>, FdwErrorView>
    decreases n,
{
    if n == 0 {
        Ok(Seq::empty())
    } else {
        match expand_upto(t, spans, quals, (n - 1) as nat) {
            Err(e) => Err(e),
            Ok(done) => {
                let from = gap_start(spans, n - 1);
                let span = spans[n - 1];
                if !(from <= span.0 <= span.1 <= t.len()) {
                    Err(FdwErrorView::RemoteProtocol)
                } else {
                    match span_name(t, span) {
                        None => Err(FdwErrorView::UnmatchedParameter(t.subrange(span.0, span.1))),
                        Some(name) => match param_text(name, quals) {
                            Err(e) => Err(e),
                            Ok(r) => Ok(done + t.subrange(from, span.0) + r),
                        },
                    }
                }
            },
        }
    }
}

/// The template with every placeholder replaced.
pub open spec fn expand(t: Seq<char>, spans: Seq<(int, int)>, quals: Seq<Qual>) -> Result<
    Seq<char>,
    FdwErrorView,
> {
    match expand_upto(t, spans, quals, spans.len()) {
        Err(e) => Err(e),
        Ok(done) => Ok(done + t.subrange(gap_start(spans, spans.len() as int), t.len() as int)),
    }
}

/// The parameters that the first `n` placeholders of a template bind, in
/// the order of the placeholders, where all of them can be replaced.
pub open spec fn bound_upto(t: Seq<char>, spans: Seq<(int, int)>, quals: Seq<Qual>, n: nat) -> Seq<
    (Seq<char>, crate::cell::CellView),
>
    decreases n,
{
    if n == 0 {
        Seq::empty()
    } else {
        let name = span_name(t, spans[n - 1])->0;
        let i = find_qual(name, quals)->0;
        bound_upto(t, spans, quals, (n - 1) as nat).push((name, quals[i].value->Cell_0@))
    }
}

/// Once a placeholder cannot be replaced, the error stays.
pub proof fn lemma_expand_fails(
    t: Seq<char>,
    spans: Seq<(int, int)>,
    quals: Seq<Qual>,
    n: nat,
    m: nat,
)
    requires
        n <= m,
        expand_upto(t, spans, quals, n) is Err,
    ensures
        expand_upto(t, spans, quals, m) == expand_upto(t, spans, quals, n),
    decreases m,
{
    if n < m {
        lemma_expand_fails(t, spans, quals, n, (m - 1) as nat);
    }
}

/// The place of the first qualifier on the field `name`.
pub fn find_param(name: &str, quals: &[Qual]) -> (r: Option<usize>)
    ensures
        match r {
            Some(i) => find_qual(name@, quals@) == Some(i as int) && i < quals.len()
                && quals[i as int].field@ == name@,
            None => find_qual(name@, quals@) is None,
        },
{
    let mut i: usize = 0;
    while i < quals.len()
        invariant
            i <= quals.len(),
            find_qual(name@, quals@.take(i as int)) is None,
        decreases quals.len() - i,
    {
        assert(quals@.take(i + 1).drop_last() == quals@.take(i as int));
        if same_text(quals[i].field.as_str(), name) {
            proof {
                lemma_find_qual_stays(name@, quals@, (i + 1) as nat, quals@.len());
            }
            return Some(i);
        }
        i += 1;
    }
    assert(quals@.take(quals.len() as int) == quals@);
    None
}

/// A qualifier found among the first `n` is the one found among all.
pub proof fn lemma_find_qual_stays(name: Seq<char>, quals: Seq<Qual>, n: nat, m: nat)
    requires
        n <= m <= quals.len(),
        find_qual(name, quals.take(n as int)) is Some,
    ensures
        find_qual(name, quals.take(m as int)) == find_qual(name, quals.take(n as int)),
        m == quals.len() ==> find_qual(name, quals) == find_qual(name, quals.take(n as int)),
    decreases m,
{
    if n < m {
        lemma_find_qual_stays(name, quals, n, (m - 1) as nat);
        assert(quals.take(m as int).drop_last() == quals.take(m - 1));
    }
    assert(quals.take(quals.len() as int) == quals);
}

/// Appends the characters of `chars` from `from` up to `to` to `buf`.
pub(crate) fn push_range(buf: &mut Vec<char>, chars: &Vec<char>, from: usize, to: usize)
    requires
        from <= to <= chars.len(),
    ensures
        final(buf)@ == old(buf)@ + chars@.subrange(from as int, to as int),
{
    let ghost start = buf@;
    let mut i: usize = from;
    while i < to
        invariant
            from <= i <= to <= chars.len(),
            buf@ == start + chars@.subrange(from as int, i as int),
        decreases to - i,
    {
        buf.push(chars[i]);
        i += 1;
        assert(chars@.subrange(from as int, i as int) == chars@.subrange(from as int, i - 1).push(
            chars@[i - 1],
        ));
    }
}

/// Replaces every placeholder of a template by the literal of the
/// qualifier that it names, and hands out the parameters so bound.
///
/// `spans` holds, for each placeholder in turn, the number of characters
/// before it and before its end.
pub fn replace_all_params(table: &str, spans: &Vec<(usize, usize)>, quals: &[Qual]) -> (r: Result<
    (String, Vec<BoundParam>),
    FdwError,
>)
    ensures
        match expand(table@, spans_of(spans@), quals@) {
            Ok(t) => r matches Ok((s, params)) && s@ == t && params_view(params@) == bound_upto(
                table@,
                spans_of(spans@),
                quals@,
                spans@.len(),
            ),
            Err(e) => r matches Err(x) && x@ == e,
        },
{
    let chars = chars_of(table);
    let ghost sp = spans_of(spans@);
    let mut buf: Vec<char> = Vec::new();
    let mut params: Vec<BoundParam> = Vec::new();
    let mut last: usize = 0;
    let mut n: usize = 0;
    while n < spans.len()
        invariant
            n <= spans.len(),
            chars@ == table@,
            sp == spans_of(spans@),
            expand_upto(table@, sp, quals@, n as nat) == Ok::<Seq<char>, FdwErrorView>(buf@),
            params_view(params@) == bound_upto(table@, sp, quals@, n as nat),
            last == gap_start(sp, n as int),
            last <= chars.len(),
        decreases spans.len() - n,
    {
        let (s, e) = spans[n];
        assert(sp[n as int] == (s as int, e as int));
        proof {
            if !(last <= s && s <= e && e <= chars.len()) || span_name(table@, sp[n as int]) is None
                || param_text(span_name(table@, sp[n as int])->0, quals@) is Err {
                lemma_expand_fails(table@, sp, quals@, (n + 1) as nat, spans@.len());
            }
        }
        if !(last <= s && s <= e && e <= chars.len()) {
            return Err(FdwError::RemoteProtocol);
        }
        if !(e - s >= 3 && chars[s] == '$' && chars[s + 1] == '{' && chars[e - 1] == '}') {
            let mut whole: Vec<char> = Vec::new();
            push_range(&mut whole, &chars, s, e);
            return Err(FdwError::UnmatchedParameter(string_of(&whole)));
        }
        let mut name_chars: Vec<char> = Vec::new();
        push_range(&mut name_chars, &chars, s + 2, e - 1);
        let name = string_of(&name_chars);
        assert(span_name(table@, sp[n as int]) == Some(name@));
        let i = match find_param(name.as_str(), quals) {
            Some(i) => i,
            None => {
                return Err(FdwError::UnmatchedParameter(name));
            },
        };
        let cell = match &quals[i].value {
            Value::Cell(c) => c,
            Value::Array(_) => {
                return Err(FdwError::NoArrayParameter(name));
            },
        };
        push_range(&mut buf, &chars, last, s);
        match cell.push_text(&mut buf) {
            Ok(()) => {},
            Err(x) => {
                return Err(x);
            },
        }
        proof {
            lemma_params_view_push(params_view(params@), params@, name@, cell@);
        }
        params.push(BoundParam { field: name, cell: cell.duplicate() });
        assert(params_view(params@) =~= bound_upto(table@, sp, quals@, (n + 1) as nat));
        last = e;
        n += 1;
    }
    push_range(&mut buf, &chars, last, chars.len());
    Ok((string_of(&buf), params))
}

/// The view of a list of parameters after one more is bound.
pub proof fn lemma_params_view_push(
    view: Seq<(Seq<char>, crate::cell::CellView)>,
    params: Seq<BoundParam>,
    field: Seq<char>,
    cell: crate::cell::CellView,
)
    requires
        view == params_view(params),
    ensures
        forall|p: BoundParam|
            p.field@ == field && p.cell@ == cell ==> #[trigger] params_view(params.push(p))
                == view.push((field, cell)),
{
    assert forall|p: BoundParam| p.field@ == field && p.cell@ == cell implies #[trigger] params_view(
        params.push(p),
    ) == view.push((field, cell)) by {
        assert(params_view(params.push(p)) =~= view.push((field, cell)));
    }
}

/// The names of the columns that no parameter is bound to, in order.
pub open spec fn kept_names(cols: Seq<Column>, fields: Seq<Seq<char>>) -> Seq<Seq<char>>
    decreases cols.len(),
{
    if cols.len() == 0 {
        Seq::empty()
    } else if fields.contains(cols.last().name@) {
        kept_names(cols.drop_last(), fields)
    } else {
        kept_names(cols.drop_last(), fields).push(cols.last().name@)
    }
}

/// The list of targets of a query: a star where no column is asked for,
/// else the names of the columns that no parameter is bound to.
pub open spec fn target_list(cols: Seq<Column>, fields: Seq<Seq<char>>) -> Seq<char> {
    if cols.len() == 0 {
        "*"@
    } else {
        join(kept_names(cols, fields), ", "@)
    }
}

/// The texts of those of the first `n` qualifiers that no parameter is
/// bound to; the kind of the first cell among them that has no text.
pub open spec fn kept_quals(quals: Seq<Qual>, fields: Seq<Seq<char>>, n: nat) -> Result<
    Seq<Seq<char>>,
    ParseKind,
>
    decreases n,
{
    if n == 0 {
        Ok(Seq::empty())
    } else {
        match kept_quals(quals, fields, (n - 1) as nat) {
            Err(k) => Err(k),
            Ok(done) => if fields.contains(quals[n - 1].field@) {
                Ok(done)
            } else {
                match qual_text(quals[n - 1]) {
                    Ok(t) => Ok(done.push(t)),
                    Err(k) => Err(k),
                }
            },
        }
    }
}

/// The texts of ordering keys.
pub open spec fn sort_texts(sorts: Seq<Sort>) -> Seq<Seq<char>> {
    Seq::new(sorts.len(), |i: int| sort_text(sorts[i]))
}

/// The clause that filters: nothing where no qualifier is kept.
pub open spec fn where_clause(texts: Seq<Seq<char>>) -> Seq<char> {
    if texts.len() == 0 {
        Seq::empty()
    } else {
        " where "@ + join(texts, " and "@)
    }
}

/// The clause that orders: nothing where there is no key.
pub open spec fn order_clause(sorts: Seq<Sort>) -> Seq<char> {
    if sorts.len() == 0 {
        Seq::empty()
    } else {
        " order by "@ + join(sort_texts(sorts), ", "@)
    }
}

/// The clause that bounds: the remote system is asked for the rows to
/// skip and the rows to take together, and never to skip any.
pub open spec fn limit_clause(limit: Option<Limit>) -> Seq<char> {
    match limit {
        Some(l) => " limit "@ + int_text(l.offset + l.count),
        None => Seq::empty(),
    }
}

/// The text of the query on a table whose text is settled.
pub open spec fn query_text(
    table: Seq<char>,
    fields: Seq<Seq<char>>,
    quals: Seq<Qual>,
    cols: Seq<Column>,
    sorts: Seq<Sort>,
    limit: Option<Limit>,
) -> Result<Seq<char>, FdwErrorView> {
    match kept_quals(quals, fields, quals.len()) {
        Err(k) => Err(FdwErrorView::ValueParse(k)),
        Ok(texts) => Ok(
            "select "@ + target_list(cols, fields) + " from "@ + table + where_clause(texts)
                + order_clause(sorts) + limit_clause(limit),
        ),
    }
}

/// Once a qualifier has no text, the error stays.
pub proof fn lemma_kept_quals_fails(quals: Seq<Qual>, fields: Seq<Seq<char>>, n: nat, m: nat)
    requires
        n <= m,
        kept_quals(quals, fields, n) is Err,
    ensures
        kept_quals(quals, fields, m) == kept_quals(quals, fields, n),
    decreases m,
{
    if n < m {
        lemma_kept_quals_fails(quals, fields, n, (m - 1) as nat);
    }
}

/// Whether a parameter is bound to the field `name`.
pub fn is_bound(params: &Vec<BoundParam>, name: &str) -> (r: bool)
    ensures
        r == param_fields(params@).contains(name@),
{
    let mut i: usize = 0;
    while i < params.len()
        invariant
            i <= params.len(),
            forall|j: int| 0 <= j < i ==> param_fields(params@)[j] != name@,
        decreases params.len() - i,
    {
        if same_text(params[i].field.as_str(), name) {
            assert(param_fields(params@)[i as int] == name@);
            return true;
        }
        i += 1;
    }
    false
}

/// Builds the query on a table whose text is settled: the targets, the
/// table, the qualifiers that no parameter is bound to, the ordering and
/// the bound.
pub fn assemble_query(
    table: &str,
    params: &Vec<BoundParam>,
    quals: &[Qual],
    columns: &[Column],
    sorts: &[Sort],
    limit: &Option<Limit>,
) -> (r: Result<String, FdwError>)
    ensures
        match query_text(table@, param_fields(params@), quals@, columns@, sorts@, *limit) {
            Ok(t) => r matches Ok(s) && s@ == t,
            Err(e) => r matches Err(x) && x@ == e,
        },
{
    let ghost fields = param_fields(params@);
    let mut buf: Vec<char> = Vec::new();
    push_str(&mut buf, "select ");
    if columns.len() == 0 {
        push_str(&mut buf, "*");
    } else {
        let ghost head = buf@;
        let ghost mut names: Seq<Seq<char>> = Seq::empty();
        let mut first = true;
        let mut i: usize = 0;
        while i < columns.len()
            invariant
                i <= columns.len(),
                fields == param_fields(params@),
                names == kept_names(columns@.take(i as int), fields),
                first == (names.len() == 0),
                buf@ == head + join(names, ", "@),
            decreases columns.len() - i,
        {
            assert(columns@.take(i + 1).drop_last() == columns@.take(i as int));
            if !is_bound(params, columns[i].name.as_str()) {
                let part = chars_of(columns[i].name.as_str());
                push_part(&mut buf, first, ", ", &part);
                proof {
                    lemma_join_push(names, ", "@, part@);
                    names = names.push(part@);
                }
                first = false;
            }
            i += 1;
        }
        assert(columns@.take(columns.len() as int) == columns@);
    }
    push_str(&mut buf, " from ");
    push_str(&mut buf, table);
    let ghost head = buf@;
    assert(head == "select "@ + target_list(columns@, fields) + " from "@ + table@);
    // The qualifiers that are kept, joined; the clause's first word goes in
    // front of the first of them.
    let ghost mut texts: Seq<Seq<char>> = Seq::empty();
    let mut first = true;
    let mut i: usize = 0;
    while i < quals.len()
        invariant
            i <= quals.len(),
            fields == param_fields(params@),
            kept_quals(quals@, fields, i as nat) == Ok::<Seq<Seq<char>>, ParseKind>(texts),
            first == (texts.len() == 0),
            buf@ == head + where_clause(texts),
        decreases quals.len() - i,
    {
        if !is_bound(params, quals[i].field.as_str()) {
            let mut part: Vec<char> = Vec::new();
            match quals[i].push_text(&mut part) {
                Ok(()) => {},
                Err(e) => {
                    proof {
                        lemma_kept_quals_fails(quals@, fields, (i + 1) as nat, quals@.len());
                    }
                    return Err(e);
                },
            }
            if first {
                push_str(&mut buf, " where ");
                push_chars(&mut buf, &part);
            } else {
                push_str(&mut buf, " and ");
                push_chars(&mut buf, &part);
            }
            proof {
                lemma_join_push(texts, " and "@, part@);
                texts = texts.push(part@);
            }
            first = false;
        }
        i += 1;
    }
    let ghost filtered = buf@;
    if sorts.len() > 0 {
        push_str(&mut buf, " order by ");
        let ghost lead = buf@;
        let mut j: usize = 0;
        while j < sorts.len()
            invariant
                j <= sorts.len(),
                buf@ == lead + join(sort_texts(sorts@.take(j as int)), ", "@),
            decreases sorts.len() - j,
        {
            proof {
                let next = sort_texts(sorts@.take(j + 1));
                assert(next.drop_last() == sort_texts(sorts@.take(j as int)));
                assert(next.last() == sort_text(sorts@[j as int]));
            }
            if j > 0 {
                push_str(&mut buf, ", ");
            }
            sorts[j].push_text(&mut buf);
            j += 1;
        }
        assert(sorts@.take(sorts.len() as int) == sorts@);
    }
    assert(buf@ == filtered + order_clause(sorts@));
    match limit {
        Some(l) => {
            push_str(&mut buf, " limit ");
            push_int(&mut buf, l.offset as i128 + l.count as i128);
        },
        None => {},
    }
    assert(buf@ == filtered + order_clause(sorts@) + limit_clause(*limit));
    Ok(string_of(&buf))
}

/// The fields of the pairs that a template binds.
pub open spec fn fields_of(bound: Seq<(Seq<char>, crate::cell::CellView)>) -> Seq<Seq<char>> {
    Seq::new(bound.len(), |i: int| bound[i].0)
}

/// The query on a templated table whose placeholders fill `spans`: the
/// placeholders are replaced first, then the query is built around the
/// result, without the columns and qualifiers that the template took.
pub open spec fn templated_query(
    table: Seq<char>,
    spans: Seq<(int, int)>,
    quals: Seq<Qual>,
    cols: Seq<Column>,
    sorts: Seq<Sort>,
    limit: Option<Limit>,
) -> Result<Seq<char>, FdwErrorView> {
    match expand(table, spans, quals) {
        Err(e) => Err(e),
        Ok(t) => query_text(
            t,
            fields_of(bound_upto(table, spans, quals, spans.len())),
            quals,
            cols,
            sorts,
            limit,
        ),
    }
}

/// Whether a table option is a template: it starts with a round bracket.
pub open spec fn is_template(table: Seq<char>) -> bool {
    table.len() > 0 && table[0] == '('
}

/// The places of the placeholders of a template, counted in characters;
/// `None` where the pattern is not accepted or a match does not start and
/// end between characters.
pub open spec fn placeholder_spans(table: Seq<char>) -> Option<Seq<(int, int)>> {
    match regex_spans(placeholder_pattern(), table) {
        None => None,
        Some(bytes) => char_spans(table, bytes, bytes.len()),
    }
}

/// The query that a table option and the shape of a query compile to.
pub open spec fn compiled_query(
    table: Seq<char>,
    quals: Seq<Qual>,
    cols: Seq<Column>,
    sorts: Seq<Sort>,
    limit: Option<Limit>,
) -> Result<Seq<char>, FdwErrorView> {
    if is_template(table) {
        match placeholder_spans(table) {
            None => Err(FdwErrorView::RemoteProtocol),
            Some(spans) => templated_query(table, spans, quals, cols, sorts, limit),
        }
    } else {
        query_text(table, Seq::empty(), quals, cols, sorts, limit)
    }
}

/// The parameters that compiling binds.
pub open spec fn compiled_params(table: Seq<char>, quals: Seq<Qual>) -> Seq<
    (Seq<char>, crate::cell::CellView),
> {
    if is_template(table) && placeholder_spans(table) is Some {
        let spans = placeholder_spans(table)->0;
        bound_upto(table, spans, quals, spans.len())
    } else {
        Seq::empty()
    }
}

/// Compiles the query on a templated table whose placeholders fill
/// `spans`, and hands out the parameters that the template binds.
pub fn compile_with_spans(
    table: &str,
    spans: &Vec<(usize, usize)>,
    quals: &[Qual],
    columns: &[Column],
    sorts: &[Sort],
    limit: &Option<Limit>,
) -> (r: Result<(String, Vec<BoundParam>), FdwError>)
    ensures
        match templated_query(table@, spans_of(spans@), quals@, columns@, sorts@, *limit) {
            Ok(t) => r matches Ok((s, params)) && s@ == t && params_view(params@) == bound_upto(
                table@,
                spans_of(spans@),
                quals@,
                spans@.len(),
            ),
            Err(e) => r matches Err(x) && x@ == e,
        },
{
    let (text, params) = match replace_all_params(table, spans, quals) {
        Ok(done) => done,
        Err(e) => {
            return Err(e);
        },
    };
    assert(param_fields(params@) =~= fields_of(params_view(params@)));
    match assemble_query(text.as_str(), &params, quals, columns, sorts, limit) {
        Ok(sql) => Ok((sql, params)),
        Err(e) => Err(e),
    }
}

/// Compiles the one query that a scan asks the remote system, and hands
/// out the parameters that a templated table binds.
pub fn compile_query(
    table: &str,
    quals: &[Qual],
    columns: &[Column],
    sorts: &[Sort],
    limit: &Option<Limit>,
) -> (r: Result<(String, Vec<BoundParam>), FdwError>)
    ensures
        match compiled_query(table@, quals@, columns@, sorts@, *limit) {
            Ok(t) => r matches Ok((s, params)) && s@ == t && params_view(params@)
                == compiled_params(table@, quals@),
            Err(e) => r matches Err(x) && x@ == e,
        },
{
    let chars = chars_of(table);
    if chars.len() > 0 && chars[0] == '(' {
        let found = match regex_find_spans(r"\$\{(\w+)\}", table) {
            None => {
                return Err(FdwError::RemoteProtocol);
            },
            Some(bytes) => bytes,
        };
        match spans_in_chars(table, &found) {
            None => Err(FdwError::RemoteProtocol),
            Some(spans) => compile_with_spans(table, &spans, quals, columns, sorts, limit),
        }
    } else {
        let params: Vec<BoundParam> = Vec::new();
        assert(param_fields(params@) =~= Seq::<Seq<char>>::empty());
        assert(params_view(params@) =~= Seq::empty());
        match assemble_query(table, &params, quals, columns, sorts, limit) {
            Ok(sql) => Ok((sql, params)),
            Err(e) => Err(e),
        }
    }
}

/// A query with a bound ends with the word `limit` and the sum of the rows
/// to skip and the rows to take: nothing stands behind it, so no clause
/// asks the remote system to skip rows.
pub proof fn law_limit_closes_query(
    table: Seq<char>,
    fields: Seq<Seq<char>>,
    quals: Seq<Qual>,
    cols: Seq<Column>,
    sorts: Seq<Sort>,
    limit: Limit,
)
    requires
        query_text(table, fields, quals, cols, sorts, Some(limit)) is Ok,
    ensures
        ({
            let text = query_text(table, fields, quals, cols, sorts, Some(limit))->Ok_0;
            let tail = " limit "@ + int_text(limit.offset + limit.count);
            &&& text.len() >= tail.len()
            &&& text.subrange(text.len() - tail.len(), text.len() as int) == tail
            &&& query_text(table, fields, quals, cols, sorts, None) == Ok::<
                Seq<char>,
                FdwErrorView,
            >(text.subrange(0, text.len() - tail.len()))
        }),
{
    let text = query_text(table, fields, quals, cols, sorts, Some(limit))->Ok_0;
    let tail = " limit "@ + int_text(limit.offset + limit.count);
    let head = query_text(table, fields, quals, cols, sorts, None)->Ok_0;
    assert(text == head + tail);
    assert(text.subrange(text.len() - tail.len(), text.len() as int) =~= tail);
    assert(text.subrange(0, text.len() - tail.len()) =~= head);
}

/// A qualifier on a field that a template took as a parameter is not
/// written into the filter, and a column of that name is not a target.
pub proof fn law_bound_field_is_left_out(
    quals: Seq<Qual>,
    cols: Seq<Column>,
    fields: Seq<Seq<char>>,
)
    requires
        quals.len() > 0,
        cols.len() > 0,
        fields.contains(quals.last().field@),
        fields.contains(cols.last().name@),
    ensures
        kept_quals(quals, fields, quals.len()) == kept_quals(
            quals,
            fields,
            (quals.len() - 1) as nat,
        ),
        kept_names(cols, fields) == kept_names(cols.drop_last(), fields),
{
}

} // verus!
