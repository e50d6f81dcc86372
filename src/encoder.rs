//! The configured CSV encoder and its builder.
use vstd::prelude::*;
use crate::csv::{
    batch_text, format_conflicts, in_terminator, joined_fields, record_text, terminator_has,
    terminator_bytes, CsvFormat, QuoteStyle, Terminator,
};
use crate::error::CodecEncodeError;
use crate::record::{encoded_all, Sendable};

verus! {

/// Builds a [`CsvEncoder`]; its settings cannot change once built.
#[derive(Clone, Copy, Debug)]
pub struct CsvEncoderBuilder {
    pub format: CsvFormat,
    pub capacity: usize,
    pub flexible: bool,
    pub has_headers: bool,
}

/// The default format: `,` between fields, `\n` after records, quoting
/// only where necessary, `"` doubled inside quoted fields.
pub open spec fn default_format() -> CsvFormat {
    CsvFormat {
        delimiter: 44,
        terminator: Terminator::Any(10),
        style: QuoteStyle::Necessary,
        quote: 34,
        escape: 92,
        double_quote: true,
        comment: None,
    }
}

impl Default for CsvEncoderBuilder {
    fn default() -> (r: CsvEncoderBuilder)
        ensures
            r.format == default_format(),
            r.capacity == 8192,
            !r.flexible,
            r.has_headers,
    {
        CsvEncoderBuilder {
            format: CsvFormat {
                delimiter: 44,
                terminator: Terminator::Any(10),
                style: QuoteStyle::Necessary,
                quote: 34,
                escape: 92,
                double_quote: true,
                comment: None,
            },
            capacity: 8192,
            flexible: false,
            has_headers: true,
        }
    }
}

impl CsvEncoderBuilder {
    /// The pipeline's own defaults: those of `default`, with quoting off.
    pub fn new() -> (r: CsvEncoderBuilder)
        ensures
            r.format == (CsvFormat { style: QuoteStyle::Never, ..default_format() }),
            r.capacity == 8192,
            !r.flexible,
            r.has_headers,
    {
        let b = CsvEncoderBuilder::default();
        b.quote_style(QuoteStyle::Never)
    }

    /// Sets the field delimiter.
    pub fn delimiter(self, delimiter: u8) -> (r: CsvEncoderBuilder)
        ensures
            r == (CsvEncoderBuilder { format: CsvFormat { delimiter, ..self.format }, ..self }),
    {
        CsvEncoderBuilder { format: CsvFormat { delimiter, ..self.format }, ..self }
    }

    /// Sets whether a header row is wanted; records carry no field names
    /// here, so this is only kept with the settings.
    pub fn has_headers(self, yes: bool) -> (r: CsvEncoderBuilder)
        ensures
            r == (CsvEncoderBuilder { has_headers: yes, ..self }),
    {
        CsvEncoderBuilder { has_headers: yes, ..self }
    }

    /// Sets whether records may differ in their number of fields.
    pub fn flexible(self, yes: bool) -> (r: CsvEncoderBuilder)
        ensures
            r == (CsvEncoderBuilder { flexible: yes, ..self }),
    {
        CsvEncoderBuilder { flexible: yes, ..self }
    }

    /// Sets the record terminator.
    pub fn terminator(self, terminator: Terminator) -> (r: CsvEncoderBuilder)
        ensures
            r == (CsvEncoderBuilder { format: CsvFormat { terminator, ..self.format }, ..self }),
    {
        CsvEncoderBuilder { format: CsvFormat { terminator, ..self.format }, ..self }
    }

    /// Sets the quoting style.
    pub fn quote_style(self, style: QuoteStyle) -> (r: CsvEncoderBuilder)
        ensures
            r == (CsvEncoderBuilder { format: CsvFormat { style, ..self.format }, ..self }),
    {
        CsvEncoderBuilder { format: CsvFormat { style, ..self.format }, ..self }
    }

    /// Sets the quote byte.
    pub fn quote(self, quote: u8) -> (r: CsvEncoderBuilder)
        ensures
            r == (CsvEncoderBuilder { format: CsvFormat { quote, ..self.format }, ..self }),
    {
        CsvEncoderBuilder { format: CsvFormat { quote, ..self.format }, ..self }
    }

    /// Sets whether quote bytes are doubled (rather than escaped).
    pub fn double_quote(self, yes: bool) -> (r: CsvEncoderBuilder)
        ensures
            r == (CsvEncoderBuilder { format: CsvFormat { double_quote: yes, ..self.format }, ..self }),
    {
        CsvEncoderBuilder { format: CsvFormat { double_quote: yes, ..self.format }, ..self }
    }

    /// Sets the byte that escapes quote bytes when they are not doubled.
    pub fn escape(self, escape: u8) -> (r: CsvEncoderBuilder)
        ensures
            r == (CsvEncoderBuilder { format: CsvFormat { escape, ..self.format }, ..self }),
    {
        CsvEncoderBuilder { format: CsvFormat { escape, ..self.format }, ..self }
    }

    /// Sets the comment byte a later reader will use.
    pub fn comment(self, comment: Option<u8>) -> (r: CsvEncoderBuilder)
        ensures
            r == (CsvEncoderBuilder { format: CsvFormat { comment, ..self.format }, ..self }),
    {
        CsvEncoderBuilder { format: CsvFormat { comment, ..self.format }, ..self }
    }

    /// Sets the scratch size used when writing quoted fields.
    pub fn buffer_capacity(self, capacity: usize) -> (r: CsvEncoderBuilder)
        ensures
            r == (CsvEncoderBuilder { capacity, ..self }),
    {
        CsvEncoderBuilder { capacity, ..self }
    }

    /// Builds the encoder; a format whose roles share a byte is refused.
    pub fn build(&self) -> (r: Result<CsvEncoder, CodecEncodeError>)
        ensures
            r.is_err() == format_conflicts(self.format),
            r.is_err() ==> r == Err::<CsvEncoder, CodecEncodeError>(CodecEncodeError::InvalidFormat),
            r matches Ok(e) ==> e.format == self.format && e.capacity == self.capacity
                && e.flexible == self.flexible && e.has_headers == self.has_headers
                && e.width.is_none(),
    {
        let f = self.format;
        let conflicts = f.delimiter == f.quote || terminator_has(f.terminator, f.delimiter)
            || terminator_has(f.terminator, f.quote) || f.comment == Some(f.delimiter)
            || f.comment == Some(f.quote);
        if conflicts {
            Err(CodecEncodeError::InvalidFormat)
        } else {
            Ok(
                CsvEncoder {
                    format: f,
                    capacity: self.capacity,
                    flexible: self.flexible,
                    has_headers: self.has_headers,
                    width: None,
                },
            )
        }
    }
}

/// An encoder with a fixed format. It remembers the field count of the
/// first record it wrote.
#[derive(Debug)]
pub struct CsvEncoder {
    pub format: CsvFormat,
    pub capacity: usize,
    pub flexible: bool,
    pub has_headers: bool,
    pub width: Option<usize>,
}

impl CsvEncoder {
    /// Whether a record of `n` fields may be written next.
    pub open spec fn width_ok(&self, n: nat) -> bool {
        self.flexible || self.width.is_none() || self.width == Some(n as usize)
    }

    /// The field count remembered after writing a record of `n` fields.
    pub open spec fn width_after(&self, n: usize) -> Option<usize> {
        if self.width.is_none() {
            Some(n)
        } else {
            self.width
        }
    }

    /// The capacity hint: the configured one, or 8 KiB when it is zero.
    fn chunk_size(&self) -> (r: usize) {
        if self.capacity > 0 {
            self.capacity
        } else {
            8192
        }
    }

    /// Appends one record (its fields, then the terminator) to `out`.
    fn write_record(&self, fields: &Vec<Vec<u8>>, out: &mut Vec<u8>)
        ensures
            final(out)@ == old(out)@ + record_text(self.format, fields.deep_view()),
    {
        let start = out.len();
        let chunk = self.chunk_size();
        let ghost views = fields.deep_view();
        let mut i: usize = 0;
        while i < fields.len()
            invariant
                i <= fields@.len(),
                views == fields.deep_view(),
                start == old(out)@.len(),
                out@ == old(out)@ + joined_fields(self.format, views.subrange(0, i as int)),
            decreases fields@.len() - i,
        {
            proof {
                assert(views.subrange(0, i as int + 1).drop_last() =~= views.subrange(0, i as int));
            }
            if i > 0 {
                out.push(self.format.delimiter);
            }
            self.format.write_field(fields[i].as_slice(), out, chunk);
            proof {
                assert(views[i as int] == fields@[i as int]@);
                if i == 0 {
                    assert(views.subrange(0, 0) =~= Seq::<Seq<u8>>::empty());
                    assert(views.subrange(0, 1)[0] == views[0]);
                }
            }
            i = i + 1;
        }
        assert(views.subrange(0, fields@.len() as int) =~= views);
        if out.len() == start && self.format.style != QuoteStyle::Never {
            out.push(self.format.quote);
            out.push(self.format.quote);
        }
        self.write_terminator(out);
        proof {
            let body = joined_fields(self.format, views);
            if body.len() == 0 && self.format.style != QuoteStyle::Never {
                assert(old(out)@ + body =~= old(out)@);
            }
        }
        assert(final(out)@ =~= old(out)@ + record_text(self.format, views));
    }

    /// Appends one record made of `fields` to `out`. Refused, with `out`
    /// unchanged, when the encoder is not flexible and an earlier record had
    /// another number of fields.
    pub fn encode_record(&mut self, fields: &Vec<Vec<u8>>, out: &mut Vec<u8>) -> (r: Result<(), CodecEncodeError>)
        ensures
            final(self).format == old(self).format,
            final(self).flexible == old(self).flexible,
            final(self).capacity == old(self).capacity,
            r.is_ok() == old(self).width_ok(fields@.len()),
            r.is_ok() ==> final(out)@ == old(out)@ + record_text(old(self).format, fields.deep_view())
                && final(self).width == old(self).width_after(fields@.len() as usize),
            r.is_err() ==> final(out)@ == old(out)@ && final(self).width == old(self).width
                && r == Err::<(), CodecEncodeError>(CodecEncodeError::UnequalLengths {
                expected: old(self).width->Some_0,
                got: fields@.len() as usize,
            }),
    {
        let n = fields.len();
        if !self.flexible {
            if let Some(w) = self.width {
                if w != n {
                    return Err(CodecEncodeError::UnequalLengths { expected: w, got: n });
                }
            }
        }
        self.write_record(fields, out);
        if self.width.is_none() {
            self.width = Some(n);
        }
        Ok(())
    }

    /// Encodes a batch: for each record in order, its serialized bytes
    /// become the single field of one line. The first record whose
    /// serialization fails ends the batch with that error, after the lines
    /// of the records before it.
    pub fn encode<T: Sendable>(&mut self, records: &Vec<T>, out: &mut Vec<u8>) -> (r: Result<(), CodecEncodeError>)
        ensures
            final(self).format == old(self).format,
            final(self).flexible == old(self).flexible,
            final(self).capacity == old(self).capacity,
            r.is_ok() == ((records@.len() == 0 || old(self).width_ok(1))
                && forall|i: int| 0 <= i < records@.len() ==> !(#[trigger] records@[i]).encode_fails()),
            r.is_ok() ==> final(out)@ == old(out)@ + batch_text(old(self).format, encoded_all(records@)),
            r matches Err(CodecEncodeError::UnequalLengths { expected, got }) ==> final(out)@ == old(out)@
                && records@.len() > 0 && !old(self).width_ok(1)
                && old(self).width == Some(expected) && got == 1,
            r matches Err(CodecEncodeError::Io(_)) ==> exists|k: int|
                0 <= k < records@.len() && (#[trigger] records@[k]).encode_fails()
                && (forall|j: int| 0 <= j < k ==> !(#[trigger] records@[j]).encode_fails())
                && final(out)@ == old(out)@ + batch_text(old(self).format, encoded_all(records@.subrange(0, k))),
            !(r matches Err(CodecEncodeError::InvalidFormat)),
    {
        let hint = self.chunk_size();
        out.reserve(hint);
        if records.len() == 0 {
            assert(encoded_all(records@) =~= Seq::<Seq<u8>>::empty());
            return Ok(());
        }
        if !self.flexible {
            if let Some(w) = self.width {
                if w != 1 {
                    return Err(CodecEncodeError::UnequalLengths { expected: w, got: 1 });
                }
            }
        }
        let ghost start = *self;
        let mut i: usize = 0;
        while i < records.len()
            invariant
                i <= records@.len(),
                records@.len() > 0,
                start.width_ok(1),
                self.format == start.format,
                self.flexible == start.flexible,
                self.capacity == start.capacity,
                self.width_ok(1),
                self.format == old(self).format,
                start == *old(self),
                forall|j: int| 0 <= j < i ==> !(#[trigger] records@[j]).encode_fails(),
                out@ == old(out)@ + batch_text(self.format, encoded_all(records@.subrange(0, i as int))),
            decreases records@.len() - i,
        {
            let mut scratch: Vec<u8> = Vec::new();
            match records[i].encode(&mut scratch) {
                Ok(()) => {},
                Err(e) => {
                    return Err(CodecEncodeError::Io(e));
                },
            }
            assert(scratch@ =~= records@[i as int].encoded());
            let mut fields: Vec<Vec<u8>> = Vec::new();
            fields.push(scratch);
            let ghost before = out@;
            proof {
                assert(fields.deep_view().len() == 1);
                assert(fields.deep_view()[0] =~= fields@[0]@);
                assert(fields.deep_view() =~= seq![records@[i as int].encoded()]);
            }
            let _ = self.encode_record(&fields, out);
            proof {
                let pre = records@.subrange(0, i as int);
                let post = records@.subrange(0, i as int + 1);
                assert(post.len() == i + 1);
                assert(post.drop_last() =~= pre);
                assert(encoded_all(post).drop_last() =~= encoded_all(pre));
                assert(encoded_all(post).last() == records@[i as int].encoded());
            }
            i = i + 1;
        }
        assert(records@.subrange(0, records@.len() as int) =~= records@);
        Ok(())
    }

    fn write_terminator(&self, out: &mut Vec<u8>)
        ensures
            final(out)@ == old(out)@ + terminator_bytes(self.format.terminator),
    {
        match self.format.terminator {
            Terminator::CRLF => {
                out.push(13);
                out.push(10);
            },
            Terminator::Any(b) => {
                out.push(b);
            },
        }
        assert(final(out)@ =~= old(out)@ + terminator_bytes(self.format.terminator));
    }
}

/// A stateful encoder that turns an item into bytes appended to a buffer.
pub trait Encoder<S> {
    type Error;

    fn encode(&mut self, item: S, buffer: &mut Vec<u8>) -> Result<(), Self::Error>;
}

/// A batch of records, one line each (see [`CsvEncoder::encode`]).
impl<T: Sendable> Encoder<Vec<T>> for CsvEncoder {
    type Error = CodecEncodeError;

    fn encode(&mut self, item: Vec<T>, buffer: &mut Vec<u8>) -> Result<(), CodecEncodeError> {
        CsvEncoder::encode(self, &item, buffer)
    }
}

} // verus!
