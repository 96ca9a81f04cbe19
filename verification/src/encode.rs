//! Row encoding: one row of text fields becomes one delimited record.
//!
//! The rules are the usual ones for delimited text: a field that contains
//! the delimiter, a quote, or a line-terminator byte is wrapped in quotes
//! and internal quotes are doubled; every record ends in a line feed.  A
//! record whose only field is empty is written as a pair of quotes so
//! that a reader cannot mistake it for a blank line, and an empty record
//! is written the same way.
//!
//! Encoding is deterministic: the record is a function of the field
//! values and the delimiter byte alone.

use vstd::prelude::*;
use vstd::string::StringSliceAdditionalSpecFns;
use vstd::utf8::encode_utf8;

verus! {

/// The quote byte, `"`.
pub const QUOTE_BYTE: u8 = 34;

/// The line feed byte that terminates every record.
pub const LF_BYTE: u8 = 10;

/// The carriage return byte; quoted so that no reader takes it for a
/// record boundary.
pub const CR_BYTE: u8 = 13;

/// Does this byte force the field that holds it into quotes?
pub open spec fn byte_forces_quotes(b: u8, delimiter: u8) -> bool {
    b == delimiter || b == QUOTE_BYTE || b == LF_BYTE || b == CR_BYTE
}

/// Does this field need to be wrapped in quotes?
pub open spec fn needs_quotes(field: Seq<u8>, delimiter: u8) -> bool {
    exists|i: int| 0 <= i < field.len() && byte_forces_quotes(#[trigger] field[i], delimiter)
}

/// The field with every internal quote doubled.
pub open spec fn escaped(field: Seq<u8>) -> Seq<u8>
    decreases field.len(),
{
    if field.len() == 0 {
        Seq::empty()
    } else {
        escaped(field.drop_last()) + (if field.last() == QUOTE_BYTE {
            seq![QUOTE_BYTE, QUOTE_BYTE]
        } else {
            seq![field.last()]
        })
    }
}

/// One encoded field: quoted and escaped when necessary, verbatim
/// otherwise.
pub open spec fn encoded_field(field: Seq<u8>, delimiter: u8) -> Seq<u8> {
    if needs_quotes(field, delimiter) {
        seq![QUOTE_BYTE] + escaped(field) + seq![QUOTE_BYTE]
    } else {
        field
    }
}

/// The encoded fields of a record joined by the delimiter, without the
/// record terminator.
pub open spec fn encoded_fields(fields: Seq<Seq<u8>>, delimiter: u8) -> Seq<u8>
    decreases fields.len(),
{
    if fields.len() == 0 {
        Seq::empty()
    } else if fields.len() == 1 {
        encoded_field(fields[0], delimiter)
    } else {
        encoded_fields(fields.drop_last(), delimiter) + seq![delimiter] + encoded_field(
            fields.last(),
            delimiter,
        )
    }
}

/// One full record, terminator included.  A record that is empty or
/// holds exactly one empty field is written as `""` so that it survives
/// a round trip through a reader that skips blank lines.
pub open spec fn encoded_record(fields: Seq<Seq<u8>>, delimiter: u8) -> Seq<u8> {
    if fields.len() == 0 || (fields.len() == 1 && fields[0].len() == 0) {
        seq![QUOTE_BYTE, QUOTE_BYTE, LF_BYTE]
    } else {
        encoded_fields(fields, delimiter) + seq![LF_BYTE]
    }
}

/// The byte content of each field of a row of text values.
pub open spec fn fields_of(values: Seq<Seq<char>>) -> Seq<Seq<u8>> {
    values.map_values(|s: Seq<char>| encode_utf8(s))
}

/// Append one encoded field to `out`.
fn push_encoded_field(out: &mut Vec<u8>, field: &str, delimiter: u8)
    ensures
        final(out)@ == old(out)@ + encoded_field(field.spec_bytes(), delimiter),
{
    let bytes: &[u8] = field.as_bytes();
    let ghost f = field.spec_bytes();
    let mut quoting = false;
    let mut j: usize = 0;
    while j < bytes.len()
        invariant
            j <= bytes.len(),
            bytes@ == f,
            quoting == needs_quotes(f.take(j as int), delimiter),
        decreases bytes.len() - j,
    {
        let b = bytes[j];
        if b == delimiter || b == QUOTE_BYTE || b == LF_BYTE || b == CR_BYTE {
            quoting = true;
        }
        proof {
            assert(f.take(j + 1).drop_last() =~= f.take(j as int));
            assert(f.take(j + 1).last() == f[j as int]);
            if needs_quotes(f.take(j as int), delimiter) || byte_forces_quotes(
                f[j as int],
                delimiter,
            ) {
                if byte_forces_quotes(f[j as int], delimiter) {
                    assert(f.take(j + 1)[j as int] == f[j as int]);
                    assert(needs_quotes(f.take(j + 1), delimiter));
                }
                if needs_quotes(f.take(j as int), delimiter) {
                    let i = choose|i: int|
                        0 <= i < j && byte_forces_quotes(#[trigger] f.take(j as int)[i], delimiter);
                    assert(f.take(j + 1)[i] == f.take(j as int)[i]);
                    assert(needs_quotes(f.take(j + 1), delimiter));
                }
            } else {
                assert forall|i: int| 0 <= i < j + 1 implies !byte_forces_quotes(
                    #[trigger] f.take(j + 1)[i],
                    delimiter,
                ) by {
                    if i < j {
                        assert(f.take(j + 1)[i] == f.take(j as int)[i]);
                    }
                }
            }
        }
        j += 1;
    }
    proof {
        assert(f.take(bytes@.len() as int) =~= f);
    }
    if !quoting {
        let mut k: usize = 0;
        while k < bytes.len()
            invariant
                k <= bytes.len(),
                bytes@ == f,
                out@ == old(out)@ + f.take(k as int),
            decreases bytes.len() - k,
        {
            let b = bytes[k];
            out.push(b);
            proof {
                assert(f.take(k + 1) =~= f.take(k as int).push(f[k as int]));
                assert(out@ =~= old(out)@ + f.take(k + 1));
            }
            k += 1;
        }
        proof {
            assert(f.take(f.len() as int) =~= f);
            assert(out@ =~= old(out)@ + encoded_field(f, delimiter));
        }
    } else {
        out.push(QUOTE_BYTE);
        let mut k: usize = 0;
        while k < bytes.len()
            invariant
                k <= bytes.len(),
                bytes@ == f,
                out@ == old(out)@ + seq![QUOTE_BYTE] + escaped(f.take(k as int)),
            decreases bytes.len() - k,
        {
            let b = bytes[k];
            out.push(b);
            if b == QUOTE_BYTE {
                out.push(QUOTE_BYTE);
            }
            proof {
                assert(f.take(k + 1).drop_last() =~= f.take(k as int));
                assert(f.take(k + 1).last() == f[k as int]);
                assert(out@ =~= old(out)@ + seq![QUOTE_BYTE] + escaped(f.take(k + 1)));
            }
            k += 1;
        }
        out.push(QUOTE_BYTE);
        proof {
            assert(f.take(f.len() as int) =~= f);
            assert(out@ =~= old(out)@ + (seq![QUOTE_BYTE] + escaped(f) + seq![QUOTE_BYTE]));
        }
    }
}

/// Encode one row of text values as one delimited record, terminator
/// included.  The result is a function of the values and the delimiter
/// alone.
pub fn encode_record(values: &Vec<String>, delimiter: u8) -> (r: Vec<u8>)
    ensures
        r@ == encoded_record(fields_of(values.deep_view()), delimiter),
{
    let ghost fields = fields_of(values.deep_view());
    proof {
        assert(fields.len() == values.len());
    }
    let mut out: Vec<u8> = Vec::new();
    if values.len() == 0 {
        out.push(QUOTE_BYTE);
        out.push(QUOTE_BYTE);
        out.push(LF_BYTE);
        proof {
            assert(out@ =~= encoded_record(fields, delimiter));
        }
        return out;
    }
    if values.len() == 1 {
        let first: &str = values[0].as_str();
        if first.as_bytes().len() == 0 {
            out.push(QUOTE_BYTE);
            out.push(QUOTE_BYTE);
            out.push(LF_BYTE);
            proof {
                assert(fields[0] == encode_utf8(values.deep_view()[0]));
                assert(out@ =~= encoded_record(fields, delimiter));
            }
            return out;
        }
        proof {
            assert(fields[0] == encode_utf8(values.deep_view()[0]));
        }
    }
    let mut i: usize = 0;
    while i < values.len()
        invariant
            i <= values.len(),
            fields == fields_of(values.deep_view()),
            fields.len() == values.len(),
            values.len() >= 1,
            !(fields.len() == 1 && fields[0].len() == 0),
            out@ == encoded_fields(fields.take(i as int), delimiter),
        decreases values.len() - i,
    {
        if i > 0 {
            out.push(delimiter);
        }
        let ghost before = out@;
        push_encoded_field(&mut out, values[i].as_str(), delimiter);
        proof {
            assert(values.deep_view()[i as int] == values[i as int]@);
            assert(fields[i as int] == encode_utf8(values[i as int]@));
            assert(f_take_step(fields, i as int, delimiter)) by {
                lemma_encoded_fields_step(fields, i as int, delimiter);
            }
            assert(out@ =~= encoded_fields(fields.take(i + 1), delimiter));
        }
        i += 1;
    }
    out.push(LF_BYTE);
    proof {
        assert(fields.take(fields.len() as int) =~= fields);
        assert(out@ =~= encoded_record(fields, delimiter));
    }
    out
}

/// The unfolding of `encoded_fields` one field at a time, stated so a
/// loop can grow a record from the left.
pub open spec fn f_take_step(fields: Seq<Seq<u8>>, i: int, delimiter: u8) -> bool {
    encoded_fields(fields.take(i + 1), delimiter) == if i == 0 {
        encoded_field(fields[0], delimiter)
    } else {
        encoded_fields(fields.take(i), delimiter) + seq![delimiter] + encoded_field(
            fields[i],
            delimiter,
        )
    }
}

proof fn lemma_encoded_fields_step(fields: Seq<Seq<u8>>, i: int, delimiter: u8)
    requires
        0 <= i < fields.len(),
    ensures
        f_take_step(fields, i, delimiter),
{
    if i == 0 {
        assert(fields.take(1).len() == 1);
        assert(fields.take(1)[0] == fields[0]);
    } else {
        assert(fields.take(i + 1).drop_last() =~= fields.take(i));
        assert(fields.take(i + 1).last() == fields[i]);
    }
}

} // verus!
