//! What a record must offer to be encoded.
use vstd::prelude::*;
use crate::buf::append_all;

verus! {

/// A value that can serialize itself into bytes.
pub trait Sendable {
    /// The bytes the value serializes to.
    spec fn encoded(&self) -> Seq<u8>;

    /// Whether serializing the value fails.
    spec fn encode_fails(&self) -> bool;

    /// Appends the value's bytes to `out`.
    fn encode(&self, out: &mut Vec<u8>) -> (r: Result<(), std::io::Error>)
        ensures
            r.is_ok() == !self.encode_fails(),
            r.is_ok() ==> final(out)@ == old(out)@ + self.encoded(),
    ;
}

/// Raw bytes serialize to themselves.
impl Sendable for Vec<u8> {
    open spec fn encoded(&self) -> Seq<u8> {
        self@
    }

    open spec fn encode_fails(&self) -> bool {
        false
    }

    fn encode(&self, out: &mut Vec<u8>) -> (r: Result<(), std::io::Error>) {
        append_all(out, self.as_slice());
        Ok(())
    }
}

/// The serialized bytes of each record.
pub open spec fn encoded_all<T: Sendable>(records: Seq<T>) -> Seq<Seq<u8>> {
    records.map_values(|r: T| r.encoded())
}

/// `s` with every `,` turned into `;`.
pub open spec fn commas_to_semicolons(s: Seq<u8>) -> Seq<u8> {
    s.map_values(|b: u8| if b == 44 { 59u8 } else { b })
}

/// The output line of a metric, without its terminator:
/// `name,namespace,value,tags,timestamp`, where commas inside the tags text
/// become semicolons so that the line splits into exactly its five parts.
pub open spec fn metric_line_text(
    name: Seq<u8>,
    namespace: Seq<u8>,
    value: Seq<u8>,
    tags: Seq<u8>,
    timestamp: Seq<u8>,
) -> Seq<u8> {
    name + seq![44u8] + namespace + seq![44u8] + value + seq![44u8] + commas_to_semicolons(tags)
        + seq![44u8] + timestamp
}

/// Builds the output line of a metric from its parts: the name, the
/// namespace (empty when absent), the value's JSON text, the tags' JSON text
/// (empty when absent) and the formatted timestamp.
pub fn metric_line(name: &[u8], namespace: &[u8], value: &[u8], tags: &[u8], timestamp: &[u8]) -> (r: Vec<u8>)
    ensures
        r@ == metric_line_text(name@, namespace@, value@, tags@, timestamp@),
{
    let mut out: Vec<u8> = Vec::new();
    append_all(&mut out, name);
    out.push(44);
    append_all(&mut out, namespace);
    out.push(44);
    append_all(&mut out, value);
    out.push(44);
    let ghost before = out@;
    let mut i: usize = 0;
    while i < tags.len()
        invariant
            i <= tags@.len(),
            out@ == before + commas_to_semicolons(tags@.subrange(0, i as int)),
        decreases tags@.len() - i,
    {
        let b = tags[i];
        out.push(if b == 44 { 59 } else { b });
        assert(commas_to_semicolons(tags@.subrange(0, i as int + 1)) =~= commas_to_semicolons(
            tags@.subrange(0, i as int),
        ).push(if b == 44 { 59u8 } else { b }));
        i = i + 1;
    }
    assert(tags@.subrange(0, tags@.len() as int) =~= tags@);
    out.push(44);
    append_all(&mut out, timestamp);
    assert(out@ =~= metric_line_text(name@, namespace@, value@, tags@, timestamp@));
    out
}

} // verus!
