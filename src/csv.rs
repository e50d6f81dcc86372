//! Streaming delimited-text encoder.
//!
//! A record is a sequence of fields. Each field is written either verbatim or
//! wrapped in the quote byte (with embedded quote bytes escaped), fields are
//! separated by the delimiter and every record ends with the terminator.
use vstd::prelude::*;
use vstd::slice::slice_subrange;
use crate::buf::{append_all, append_prefix};

verus! {

/// When a field is wrapped in quote bytes.
#[derive(Clone, Copy, Debug, PartialEq, Eq, Structural)]
pub enum QuoteStyle {
    /// Every field is quoted.
    Always,
    /// A field is quoted only when it holds a byte with a special meaning.
    Necessary,
    /// A field is quoted unless it reads as a number.
    NonNumeric,
    /// No field is ever quoted.
    Never,
}

/// The bytes that end a record.
#[derive(Clone, Copy, Debug, PartialEq, Eq, Structural)]
pub enum Terminator {
    /// `\r\n`.
    CRLF,
    /// Any single byte.
    Any(u8),
}

/// The byte-level settings of the format.
#[derive(Clone, Copy, Debug, PartialEq, Eq, Structural)]
pub struct CsvFormat {
    pub delimiter: u8,
    pub terminator: Terminator,
    pub style: QuoteStyle,
    pub quote: u8,
    pub escape: u8,
    pub double_quote: bool,
    pub comment: Option<u8>,
}

/// Result of `csv_core::is_non_numeric` on the given bytes.
pub uninterp spec fn non_numeric(s: Seq<u8>) -> bool;

/// Relies on `csv_core::is_non_numeric`: true when the bytes parse neither as
/// a float nor as an integer.
#[verifier::external_body]
fn is_non_numeric_bytes(input: &[u8]) -> (r: bool)
    ensures
        r == non_numeric(input@),
{
    csv_core::is_non_numeric(input)
}

/// The bytes that stand for one field byte inside a quoted field.
pub open spec fn escaped_byte(b: u8, quote: u8, escape: u8, double_quote: bool) -> Seq<u8> {
    if b == quote {
        if double_quote {
            seq![quote, quote]
        } else {
            seq![escape, quote]
        }
    } else {
        seq![b]
    }
}

/// Field content with every quote byte doubled, or prefixed by the escape byte.
pub open spec fn escaped(s: Seq<u8>, quote: u8, escape: u8, double_quote: bool) -> Seq<u8>
    decreases s.len(),
{
    if s.len() == 0 {
        Seq::empty()
    } else {
        escaped(s.drop_last(), quote, escape, double_quote) + escaped_byte(
            s.last(),
            quote,
            escape,
            double_quote,
        )
    }
}

/// Relies on `csv_core::quote`: copies `input` into `output` with quote bytes
/// escaped, stopping early when `output` is full. Returns whether all input
/// was consumed, the bytes consumed and the bytes written.
#[verifier::external_body]
fn quote_chunk(input: &[u8], output: &mut Vec<u8>, quote: u8, escape: u8, double_quote: bool) -> (r: (bool, usize, usize))
    ensures
        r.1 <= input@.len(),
        r.2 <= old(output)@.len(),
        final(output)@.len() == old(output)@.len(),
        final(output)@.subrange(0, r.2 as int) == escaped(
            input@.subrange(0, r.1 as int),
            quote,
            escape,
            double_quote,
        ),
        r.0 <==> r.1 == input@.len(),
        old(output)@.len() >= 2 * input@.len() ==> r.0,
        old(output)@.len() >= 2 && input@.len() > 0 ==> r.1 > 0,
{
    let (res, nin, nout) = csv_core::quote(input, output.as_mut_slice(), quote, escape, double_quote);
    (matches!(res, csv_core::WriteResult::InputEmpty), nin, nout)
}


/// The bytes that end a record.
pub open spec fn terminator_bytes(t: Terminator) -> Seq<u8> {
    match t {
        Terminator::CRLF => seq![13u8, 10u8],
        Terminator::Any(b) => seq![b],
    }
}

/// Whether `b` is one of the terminator's bytes.
pub fn terminator_has(t: Terminator, b: u8) -> (r: bool)
    ensures
        r == in_terminator(t, b),
{
    proof {
        assert(seq![13u8, 10u8][0] == 13u8);
        assert(seq![13u8, 10u8][1] == 10u8);
    }
    match t {
        Terminator::CRLF => {
            assert(terminator_bytes(t).contains(13u8) <==> true) by {
                assert(terminator_bytes(t)[0] == 13u8);
            };
            if b == 13 || b == 10 {
                if b == 13 {
                    assert(terminator_bytes(t)[0] == b);
                } else {
                    assert(terminator_bytes(t)[1] == b);
                }
                true
            } else {
                false
            }
        },
        Terminator::Any(x) => {
            if b == x {
                assert(terminator_bytes(t)[0] == b);
            }
            b == x
        },
    }
}

/// A byte that forces quoting under `QuoteStyle::Necessary`: the delimiter,
/// the quote byte, a byte of the terminator, or the comment byte.
pub open spec fn is_special(f: CsvFormat, b: u8) -> bool {
    ||| b == f.delimiter
    ||| b == f.quote
    ||| in_terminator(f.terminator, b)
    ||| f.comment == Some(b)
}

/// Whether the field holds a special byte.
pub open spec fn needs_quotes(f: CsvFormat, s: Seq<u8>) -> bool {
    exists|i: int| 0 <= i < s.len() && is_special(f, #[trigger] s[i])
}

/// Whether the field is written inside quote bytes.
pub open spec fn quotes_field(f: CsvFormat, s: Seq<u8>) -> bool {
    match f.style {
        QuoteStyle::Always => true,
        QuoteStyle::Never => false,
        QuoteStyle::NonNumeric => non_numeric(s),
        QuoteStyle::Necessary => needs_quotes(f, s),
    }
}

/// The text of one field, quoted or not as `quoted` says.
pub open spec fn field_text_as(f: CsvFormat, s: Seq<u8>, quoted: bool) -> Seq<u8> {
    if quoted {
        seq![f.quote] + escaped(s, f.quote, f.escape, f.double_quote) + seq![f.quote]
    } else {
        s
    }
}

/// The text of one field.
pub open spec fn field_text(f: CsvFormat, s: Seq<u8>) -> Seq<u8> {
    field_text_as(f, s, quotes_field(f, s))
}

/// The fields' texts separated by the delimiter.
pub open spec fn joined_fields(f: CsvFormat, fields: Seq<Seq<u8>>) -> Seq<u8>
    decreases fields.len(),
{
    if fields.len() == 0 {
        Seq::empty()
    } else if fields.len() == 1 {
        field_text(f, fields[0])
    } else {
        joined_fields(f, fields.drop_last()) + seq![f.delimiter] + field_text(f, fields.last())
    }
}

/// The text of one record: its fields, then the terminator. A record whose
/// fields produce no bytes is written as two quote bytes (unless quoting is
/// off), so that it stays apart from a record with no fields.
pub open spec fn record_text(f: CsvFormat, fields: Seq<Seq<u8>>) -> Seq<u8> {
    let body = joined_fields(f, fields);
    if body.len() == 0 && f.style != QuoteStyle::Never {
        seq![f.quote, f.quote] + terminator_bytes(f.terminator)
    } else {
        body + terminator_bytes(f.terminator)
    }
}

/// One line per record, each record holding a single field.
pub open spec fn batch_text(f: CsvFormat, records: Seq<Seq<u8>>) -> Seq<u8>
    decreases records.len(),
{
    if records.len() == 0 {
        Seq::empty()
    } else {
        batch_text(f, records.drop_last()) + record_text(f, seq![records.last()])
    }
}

/// Escaping distributes over concatenation.
pub proof fn lemma_escaped_append(a: Seq<u8>, b: Seq<u8>, quote: u8, escape: u8, double_quote: bool)
    ensures
        escaped(a + b, quote, escape, double_quote) == escaped(a, quote, escape, double_quote)
            + escaped(b, quote, escape, double_quote),
    decreases b.len(),
{
    if b.len() == 0 {
        assert(a + b =~= a);
        assert(escaped(b, quote, escape, double_quote) =~= Seq::<u8>::empty());
    } else {
        lemma_escaped_append(a, b.drop_last(), quote, escape, double_quote);
        assert((a + b).drop_last() =~= a + b.drop_last());
        assert((a + b).last() == b.last());
    }
}

/// A vector of `n` zero bytes.
fn zeroed(n: usize) -> (r: Vec<u8>)
    ensures
        r@.len() == n,
{
    vec![0u8; n]
}

/// Grows a scratch size by the fixed increment, saturating at the top.
fn grown(size: usize) -> (r: usize)
    ensures
        size <= usize::MAX - 8192 ==> r == size + 8192,
        r >= size,
{
    if size <= usize::MAX - 8192 {
        size + 8192
    } else {
        size
    }
}

impl CsvFormat {
    /// Whether `b` forces quoting under `QuoteStyle::Necessary`.
    pub fn is_special_byte(&self, b: u8) -> (r: bool)
        ensures
            r == is_special(*self, b),
    {
        let is_comment = match self.comment {
            Some(c) => c == b,
            None => false,
        };
        b == self.delimiter || b == self.quote || terminator_has(self.terminator, b) || is_comment
    }

    /// Whether `field` is written inside quote bytes.
    pub fn should_quote(&self, field: &[u8]) -> (r: bool)
        ensures
            r == quotes_field(*self, field@),
    {
        match self.style {
            QuoteStyle::Always => true,
            QuoteStyle::Never => false,
            QuoteStyle::NonNumeric => is_non_numeric_bytes(field),
            QuoteStyle::Necessary => {
                let mut i: usize = 0;
                while i < field.len()
                    invariant
                        self.style == QuoteStyle::Necessary,
                        i <= field@.len(),
                        forall|j: int| 0 <= j < i ==> !is_special(*self, #[trigger] field@[j]),
                    decreases field.len() - i,
                {
                    if self.is_special_byte(field[i]) {
                        assert(is_special(*self, field@[i as int]));
                        return true;
                    }
                    i = i + 1;
                }
                false
            },
        }
    }

    /// Appends the text of `field` to `out`.
    pub fn write_field(&self, field: &[u8], out: &mut Vec<u8>, chunk: usize)
        ensures
            final(out)@ == old(out)@ + field_text(*self, field@),
    {
        let quoted = self.should_quote(field);
        self.write_field_as(field, quoted, out, chunk);
    }

    /// Appends the text of `field` to `out`, inside quote bytes when
    /// `quoted`. Quoted content is produced in scratch chunks of `chunk`
    /// bytes; a chunk too small to make progress grows by a fixed increment.
    pub fn write_field_as(&self, field: &[u8], quoted: bool, out: &mut Vec<u8>, chunk: usize)
        ensures
            final(out)@ == old(out)@ + field_text_as(*self, field@, quoted),
    {
        if !quoted {
            append_all(out, field);
            return;
        }
        out.push(self.quote);
        let field_len = field.len();
        let mut size: usize = if chunk > 0 { chunk } else { 8192 };
        let mut pos: usize = 0;
        loop
            invariant
                pos <= field@.len(),
                field_len == field@.len(),
                out@ == old(out)@ + seq![self.quote] + escaped(
                    field@.subrange(0, pos as int),
                    self.quote,
                    self.escape,
                    self.double_quote,
                ),
            ensures
                pos == field@.len(),
                out@ == old(out)@ + seq![self.quote] + escaped(
                    field@.subrange(0, pos as int),
                    self.quote,
                    self.escape,
                    self.double_quote,
                ),
            decreases field@.len() - pos, if size < 2 { 1int } else { 0int },
        {
            let rest = slice_from(field, pos);
            let mut scratch = zeroed(size);
            let (done, nin, nout) = quote_chunk(
                rest,
                &mut scratch,
                self.quote,
                self.escape,
                self.double_quote,
            );
            assert(rest@.len() == field@.len() - pos);
            assert(nin <= rest@.len());
            append_prefix(out, scratch.as_slice(), nout);
            proof {
                lemma_escaped_append(
                    field@.subrange(0, pos as int),
                    rest@.subrange(0, nin as int),
                    self.quote,
                    self.escape,
                    self.double_quote,
                );
                assert(field@.subrange(0, pos as int) + rest@.subrange(0, nin as int)
                    =~= field@.subrange(0, pos + nin));
            }
            pos = pos + nin;
            if done {
                break;
            }
            size = grown(size);
        }
        assert(field@.subrange(0, field@.len() as int) =~= field@);
        out.push(self.quote);
    }
}

/// The bytes of `s` from `start` on.
fn slice_from(s: &[u8], start: usize) -> (r: &[u8])
    requires
        start <= s@.len(),
    ensures
        r@ == s@.subrange(start as int, s@.len() as int),
{
    let n = s.len();
    slice_subrange(s, start, n)
}

/// Scans quoted content up to its closing quote byte. A doubled quote byte
/// (or, when quotes are not doubled, the escape byte followed by a quote
/// byte) stands for one quote byte; a single quote byte closes the field;
/// any other byte stands for itself. Returns the content and the number of
/// bytes consumed, closing quote included; `None` if no closing quote comes.
pub open spec fn scan_quoted(f: CsvFormat, t: Seq<u8>) -> Option<(Seq<u8>, int)>
    decreases t.len(),
{
    if t.len() == 0 {
        None
    } else if t.len() >= 2 && t[1] == f.quote && ((f.double_quote && t[0] == f.quote) || (
    !f.double_quote && t[0] == f.escape)) {
        match scan_quoted(f, t.subrange(2, t.len() as int)) {
            Some((c, n)) => Some((seq![f.quote] + c, n + 2)),
            None => None,
        }
    } else if t[0] == f.quote {
        Some((Seq::empty(), 1))
    } else {
        match scan_quoted(f, t.subrange(1, t.len() as int)) {
            Some((c, n)) => Some((seq![t[0]] + c, n + 1)),
            None => None,
        }
    }
}

/// Whether `b` ends an unquoted field: the delimiter or a terminator byte.
pub open spec fn ends_field(f: CsvFormat, b: u8) -> bool {
    b == f.delimiter || terminator_bytes(f.terminator).contains(b)
}

/// The length of the unquoted field at the start of `t`: up to the first
/// byte that ends a field.
pub open spec fn scan_plain(f: CsvFormat, t: Seq<u8>) -> int
    decreases t.len(),
{
    if t.len() == 0 || ends_field(f, t[0]) {
        0
    } else {
        1 + scan_plain(f, t.subrange(1, t.len() as int))
    }
}

/// A reader's view of the next field of `t`: the field and the number of
/// bytes it took up. A field opening with the quote byte runs to its
/// closing quote; any other runs to the next delimiter or terminator byte.
pub open spec fn read_field(f: CsvFormat, t: Seq<u8>) -> Option<(Seq<u8>, int)> {
    if t.len() > 0 && t[0] == f.quote {
        match scan_quoted(f, t.subrange(1, t.len() as int)) {
            Some((c, n)) => Some((c, n + 1)),
            None => None,
        }
    } else {
        let n = scan_plain(f, t);
        Some((t.subrange(0, n), n))
    }
}

proof fn lemma_escaped_prepend(a: u8, rest: Seq<u8>, quote: u8, escape: u8, double_quote: bool)
    ensures
        escaped(seq![a] + rest, quote, escape, double_quote) == escaped_byte(
            a,
            quote,
            escape,
            double_quote,
        ) + escaped(rest, quote, escape, double_quote),
{
    lemma_escaped_append(seq![a], rest, quote, escape, double_quote);
    assert(seq![a].drop_last() =~= Seq::<u8>::empty());
    assert(escaped(Seq::<u8>::empty(), quote, escape, double_quote) =~= Seq::<u8>::empty());
    assert(escaped(seq![a], quote, escape, double_quote) =~= escaped_byte(a, quote, escape, double_quote));
}

/// Escaped content followed by the closing quote scans back to the
/// content, when the byte after the closing quote is not a quote byte and
/// (escaping with a distinct escape byte) the content does not end with
/// the escape byte.
proof fn lemma_scan_escaped(f: CsvFormat, s: Seq<u8>, rest: Seq<u8>)
    requires
        rest.len() == 0 || rest[0] != f.quote,
        f.double_quote || f.escape == f.quote || s.len() == 0 || s.last() != f.escape,
    ensures
        scan_quoted(f, escaped(s, f.quote, f.escape, f.double_quote) + seq![f.quote] + rest) == Some(
            (s, escaped(s, f.quote, f.escape, f.double_quote).len() + 1int),
        ),
    decreases s.len(),
{
    let q = f.quote;
    let e = escaped(s, f.quote, f.escape, f.double_quote);
    let t = e + seq![q] + rest;
    if s.len() == 0 {
        assert(e =~= Seq::<u8>::empty());
        assert(t[0] == q);
        assert(s =~= Seq::<u8>::empty());
    } else {
        let a = s[0];
        let s2 = s.subrange(1, s.len() as int);
        assert(s =~= seq![a] + s2);
        lemma_escaped_prepend(a, s2, f.quote, f.escape, f.double_quote);
        let e2 = escaped(s2, f.quote, f.escape, f.double_quote);
        if s2.len() > 0 {
            assert(s2.last() == s.last());
        }
        lemma_scan_escaped(f, s2, rest);
        let t2 = e2 + seq![q] + rest;
        if a == q {
            assert(t.subrange(2, t.len() as int) =~= t2);
            assert(seq![q] + s2 =~= s);
        } else {
            assert(t =~= seq![a] + t2);
            assert(t.subrange(1, t.len() as int) =~= t2);
            if t.len() >= 2 && t[1] == q && !f.double_quote && a == f.escape {
                assert(t2[0] == q);
                if e2.len() > 0 {
                    assert(e2[0] == q);
                    lemma_escaped_head(s2, f.quote, f.escape, f.double_quote);
                } else {
                    assert(s2 =~= Seq::<u8>::empty()) by {
                        if s2.len() > 0 {
                            assert(s2 =~= seq![s2[0]] + s2.subrange(1, s2.len() as int));
                            lemma_escaped_prepend(s2[0], s2.subrange(1, s2.len() as int), f.quote, f.escape, f.double_quote);
                        }
                    }
                    assert(s.last() == a);
                }
            }
            assert(seq![a] + s2 =~= s);
        }
    }
}

/// Escaped text starts with a quote byte only where a doubled quote begins.
proof fn lemma_escaped_head(s: Seq<u8>, quote: u8, escape: u8, double_quote: bool)
    requires
        escaped(s, quote, escape, double_quote).len() > 0,
        escaped(s, quote, escape, double_quote)[0] == quote,
    ensures
        s.len() > 0 && s[0] == quote && (double_quote || escape == quote),
{
    if s.len() == 0 {
        assert(escaped(s, quote, escape, double_quote) =~= Seq::<u8>::empty());
    } else {
        assert(s =~= seq![s[0]] + s.subrange(1, s.len() as int));
        lemma_escaped_prepend(s[0], s.subrange(1, s.len() as int), quote, escape, double_quote);
    }
}

/// Unquoted bytes with no field-ending byte, followed by text that starts
/// with a field-ending byte (or by nothing), scan back to their length.
proof fn lemma_scan_plain(f: CsvFormat, s: Seq<u8>, rest: Seq<u8>)
    requires
        forall|i: int| 0 <= i < s.len() ==> !ends_field(f, #[trigger] s[i]),
        rest.len() == 0 || ends_field(f, rest[0]),
    ensures
        scan_plain(f, s + rest) == s.len(),
    decreases s.len(),
{
    if s.len() == 0 {
        assert(s + rest =~= rest);
    } else {
        let s2 = s.subrange(1, s.len() as int);
        assert forall|i: int| 0 <= i < s2.len() implies !ends_field(f, #[trigger] s2[i]) by {
            assert(s2[i] == s[i + 1]);
        }
        lemma_scan_plain(f, s2, rest);
        assert((s + rest).subrange(1, (s + rest).len() as int) =~= s2 + rest);
        assert((s + rest)[0] == s[0]);
    }
}

/// Round trip: with quoting on, a reader that meets a field's text followed
/// by the rest of the line (a delimiter, a terminator, or nothing) reads
/// back exactly the field and stops where its text ends, so delimiters,
/// quote bytes and terminator bytes inside the field do not cut it short.
/// Left out: a field under `NonNumeric` that reads as a number yet holds a
/// special byte (it is written bare), and, where quote bytes are escaped
/// with a distinct escape byte, a field that ends with the escape byte (its
/// escape byte runs into the closing quote).
pub proof fn lemma_field_round_trip(f: CsvFormat, s: Seq<u8>, rest: Seq<u8>)
    requires
        !format_conflicts(f),
        f.style != QuoteStyle::Never,
        !(f.style == QuoteStyle::NonNumeric && !non_numeric(s) && needs_quotes(f, s)),
        f.double_quote || f.escape == f.quote || s.len() == 0 || s.last() != f.escape,
        rest.len() == 0 || ends_field(f, rest[0]),
    ensures
        read_field(f, field_text(f, s) + rest) == Some((s, field_text(f, s).len() as int)),
{
    let t = field_text(f, s) + rest;
    if rest.len() > 0 {
        assert(rest[0] != f.quote) by {
            if rest[0] == f.quote {
                assert(terminator_bytes(f.terminator).contains(rest[0]));
            }
        }
    }
    if quotes_field(f, s) {
        let e = escaped(s, f.quote, f.escape, f.double_quote);
        lemma_scan_escaped(f, s, rest);
        assert(t.subrange(1, t.len() as int) =~= e + seq![f.quote] + rest);
    } else {
        assert(!needs_quotes(f, s));
        assert forall|i: int| 0 <= i < s.len() implies !ends_field(f, #[trigger] s[i]) by {
            if ends_field(f, s[i]) {
                assert(is_special(f, s[i])) by {
                    if s[i] != f.delimiter {
                        let k = choose|k: int| 0 <= k < terminator_bytes(f.terminator).len()
                            && terminator_bytes(f.terminator)[k] == s[i];
                        match f.terminator {
                            Terminator::CRLF => {
                                assert(k == 0 || k == 1);
                            },
                            Terminator::Any(b) => {
                                assert(k == 0);
                            },
                        }
                    }
                }
            }
        }
        if s.len() > 0 {
            assert(t[0] == s[0]);
            assert(s[0] != f.quote) by {
                if s[0] == f.quote {
                    assert(is_special(f, s[0]));
                }
            }
        } else if rest.len() > 0 {
            assert(t[0] == rest[0]);
        }
        lemma_scan_plain(f, s, rest);
        assert(t.subrange(0, s.len() as int) =~= s);
    }
}

/// Whether `b` is one of the terminator's bytes.
pub open spec fn in_terminator(t: Terminator, b: u8) -> bool {
    terminator_bytes(t).contains(b)
}

/// Two roles of the format share a byte, so written text could not be read
/// back: the delimiter is the quote byte, the delimiter or the quote byte
/// ends records, or the comment byte is the delimiter or the quote byte.
pub open spec fn format_conflicts(f: CsvFormat) -> bool {
    ||| f.delimiter == f.quote
    ||| in_terminator(f.terminator, f.delimiter)
    ||| in_terminator(f.terminator, f.quote)
    ||| f.comment == Some(f.delimiter)
    ||| f.comment == Some(f.quote)
}

/// Order of a batch: the text of two batches one after the other is the
/// text of the first followed by that of the second, so each record's line
/// stands after the lines of all records before it.
pub proof fn lemma_batch_order(f: CsvFormat, a: Seq<Seq<u8>>, b: Seq<Seq<u8>>)
    ensures
        batch_text(f, a + b) == batch_text(f, a) + batch_text(f, b),
    decreases b.len(),
{
    if b.len() == 0 {
        assert(a + b =~= a);
        assert(batch_text(f, b) =~= Seq::<u8>::empty());
        assert(batch_text(f, a) + batch_text(f, b) =~= batch_text(f, a));
    } else {
        lemma_batch_order(f, a, b.drop_last());
        assert((a + b).drop_last() =~= a + b.drop_last());
        assert((a + b).last() == b.last());
    }
}

} // verus!
