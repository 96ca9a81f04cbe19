//! Reading the record format back: the inverse of [`crate::encode`],
//! defined at the specification level to state and prove the
//! round-trip law — decoding an uncompressed, headerless export yields
//! exactly the rows that were exported.

use crate::db::row_text;
use crate::encode::{
    byte_forces_quotes, encoded_field, encoded_fields, encoded_record, escaped, fields_of,
    needs_quotes, LF_BYTE, QUOTE_BYTE,
};
use crate::export::{export_output, rows_output};
use vstd::prelude::*;

verus! {

/// The bytes of one quoted field, read after its opening quote:
/// doubled quotes collapse, the closing quote ends the field.  `None`
/// when the quote never closes.
pub open spec fn take_quoted(s: Seq<u8>) -> Option<(Seq<u8>, Seq<u8>)>
    decreases s.len(),
{
    if s.len() == 0 {
        None
    } else if s[0] == QUOTE_BYTE {
        if s.len() >= 2 && s[1] == QUOTE_BYTE {
            match take_quoted(s.skip(2)) {
                Some(p) => Some((seq![QUOTE_BYTE] + p.0, p.1)),
                None => None,
            }
        } else {
            Some((Seq::empty(), s.skip(1)))
        }
    } else {
        match take_quoted(s.skip(1)) {
            Some(p) => Some((seq![s[0]] + p.0, p.1)),
            None => None,
        }
    }
}

/// The bytes of one unquoted field: everything up to the next
/// delimiter or record terminator, which stays in the remainder.
/// `None` when the record never ends.
pub open spec fn take_unquoted(s: Seq<u8>, delimiter: u8) -> Option<(Seq<u8>, Seq<u8>)>
    decreases s.len(),
{
    if s.len() == 0 {
        None
    } else if s[0] == delimiter || s[0] == LF_BYTE {
        Some((Seq::empty(), s))
    } else {
        match take_unquoted(s.skip(1), delimiter) {
            Some(p) => Some((seq![s[0]] + p.0, p.1)),
            None => None,
        }
    }
}

/// One field, quoted or not.  The remainder starts at the delimiter or
/// terminator that followed the field.
pub open spec fn take_field(s: Seq<u8>, delimiter: u8) -> Option<(Seq<u8>, Seq<u8>)> {
    if s.len() > 0 && s[0] == QUOTE_BYTE {
        take_quoted(s.skip(1))
    } else {
        take_unquoted(s, delimiter)
    }
}

/// One record: fields separated by the delimiter, closed by the line
/// feed, which is consumed.  `fuel` only bounds the recursion; any
/// fuel beyond the field count reads the same record.
pub open spec fn take_record(s: Seq<u8>, delimiter: u8, fuel: nat) -> Option<
    (Seq<Seq<u8>>, Seq<u8>),
>
    decreases fuel,
{
    if fuel == 0 {
        None
    } else {
        match take_field(s, delimiter) {
            Some(p) => {
                if p.1.len() > 0 && p.1[0] == LF_BYTE {
                    Some((seq![p.0], p.1.skip(1)))
                } else if p.1.len() > 0 && p.1[0] == delimiter {
                    match take_record(p.1.skip(1), delimiter, (fuel - 1) as nat) {
                        Some(q) => Some((seq![p.0] + q.0, q.1)),
                        None => None,
                    }
                } else {
                    None
                }
            },
            None => None,
        }
    }
}

/// Every record of a stream, in order.  `None` when any record is
/// malformed.
pub open spec fn take_records(s: Seq<u8>, delimiter: u8, fuel: nat) -> Option<Seq<Seq<Seq<u8>>>>
    decreases fuel,
{
    if s.len() == 0 {
        Some(Seq::empty())
    } else if fuel == 0 {
        None
    } else {
        match take_record(s, delimiter, s.len() + 1) {
            Some(p) => match take_records(p.1, delimiter, (fuel - 1) as nat) {
                Some(rs) => Some(seq![p.0] + rs),
                None => None,
            },
            None => None,
        }
    }
}

/// The rows encoded in an export stream: each record's fields, as byte
/// sequences, in stream order.
pub open spec fn decode_output(s: Seq<u8>, delimiter: u8) -> Option<Seq<Seq<Seq<u8>>>> {
    take_records(s, delimiter, s.len() + 1)
}

/// A delimiter the format can use: anything but the quote and the two
/// line-terminator bytes, which have fixed roles.
pub open spec fn delimiter_ok(delimiter: u8) -> bool {
    delimiter != QUOTE_BYTE && delimiter != LF_BYTE && delimiter != 13
}

/// `escaped` unfolded from the front.
proof fn lemma_escaped_front(f: Seq<u8>)
    requires
        f.len() > 0,
    ensures
        escaped(f) == (if f[0] == QUOTE_BYTE {
            seq![QUOTE_BYTE, QUOTE_BYTE]
        } else {
            seq![f[0]]
        }) + escaped(f.drop_first()),
    decreases f.len(),
{
    let head: Seq<u8> = if f[0] == QUOTE_BYTE {
        seq![QUOTE_BYTE, QUOTE_BYTE]
    } else {
        seq![f[0]]
    };
    if f.len() == 1 {
        assert(f.drop_last() =~= Seq::<u8>::empty());
        assert(f.drop_first() =~= Seq::<u8>::empty());
        assert(f.last() == f[0]);
        assert(escaped(f) =~= head + escaped(f.drop_first()));
    } else {
        let front = f.drop_last();
        lemma_escaped_front(front);
        assert(front[0] == f[0]);
        assert(front.drop_first() =~= f.drop_first().drop_last());
        assert(f.drop_first().last() == f.last());
        assert(f.drop_first().len() > 0);
        assert(escaped(f.drop_first()) == escaped(f.drop_first().drop_last()) + (if f.last()
            == QUOTE_BYTE {
            seq![QUOTE_BYTE, QUOTE_BYTE]
        } else {
            seq![f.last()]
        }));
        assert(escaped(f) =~= head + escaped(f.drop_first()));
    }
}

/// Reading a quoted body recovers the field exactly.
proof fn lemma_take_quoted(f: Seq<u8>, rest: Seq<u8>)
    requires
        rest.len() > 0,
        rest[0] != QUOTE_BYTE,
    ensures
        take_quoted(escaped(f) + seq![QUOTE_BYTE] + rest) == Some((f, rest)),
    decreases f.len(),
{
    let s = escaped(f) + seq![QUOTE_BYTE] + rest;
    if f.len() == 0 {
        assert(escaped(f) =~= Seq::<u8>::empty());
        assert(s =~= seq![QUOTE_BYTE] + rest);
        assert(s[0] == QUOTE_BYTE);
        assert(s[1] == rest[0]);
        assert(s.skip(1) =~= rest);
    } else {
        lemma_escaped_front(f);
        let tail = f.drop_first();
        let s_tail = escaped(tail) + seq![QUOTE_BYTE] + rest;
        lemma_take_quoted(tail, rest);
        if f[0] == QUOTE_BYTE {
            assert(s =~= seq![QUOTE_BYTE, QUOTE_BYTE] + s_tail);
            assert(s[0] == QUOTE_BYTE && s[1] == QUOTE_BYTE);
            assert(s.skip(2) =~= s_tail);
            assert(seq![QUOTE_BYTE] + tail =~= f);
        } else {
            assert(s =~= seq![f[0]] + s_tail);
            assert(s[0] == f[0]);
            assert(s.skip(1) =~= s_tail);
            assert(seq![f[0]] + tail =~= f);
        }
    }
}

/// Reading an unquoted field recovers it exactly, stopping at the
/// delimiter or terminator that follows.
proof fn lemma_take_unquoted(f: Seq<u8>, delimiter: u8, rest: Seq<u8>)
    requires
        !needs_quotes(f, delimiter),
        rest.len() > 0,
        rest[0] == delimiter || rest[0] == LF_BYTE,
    ensures
        take_unquoted(f + rest, delimiter) == Some((f, rest)),
    decreases f.len(),
{
    let s = f + rest;
    if f.len() == 0 {
        assert(s =~= rest);
    } else {
        assert(!byte_forces_quotes(f[0], delimiter));
        let tail = f.drop_first();
        assert(!needs_quotes(tail, delimiter)) by {
            if needs_quotes(tail, delimiter) {
                let i = choose|i: int|
                    0 <= i < tail.len() && byte_forces_quotes(#[trigger] tail[i], delimiter);
                assert(f[i + 1] == tail[i]);
            }
        }
        lemma_take_unquoted(tail, delimiter, rest);
        assert(s[0] == f[0]);
        assert(s[0] != delimiter && s[0] != LF_BYTE);
        assert(s.skip(1) =~= tail + rest);
        assert(seq![f[0]] + tail =~= f);
    }
}

/// Reading one encoded field recovers it exactly.
proof fn lemma_take_field(f: Seq<u8>, delimiter: u8, rest: Seq<u8>)
    requires
        delimiter_ok(delimiter),
        rest.len() > 0,
        rest[0] == delimiter || rest[0] == LF_BYTE,
    ensures
        take_field(encoded_field(f, delimiter) + rest, delimiter) == Some((f, rest)),
{
    let s = encoded_field(f, delimiter) + rest;
    if needs_quotes(f, delimiter) {
        assert(s =~= seq![QUOTE_BYTE] + (escaped(f) + seq![QUOTE_BYTE] + rest));
        assert(s[0] == QUOTE_BYTE);
        assert(rest[0] != QUOTE_BYTE);
        lemma_take_quoted(f, rest);
        assert(s.skip(1) =~= escaped(f) + seq![QUOTE_BYTE] + rest);
    } else {
        assert(s =~= f + rest);
        if s.len() > 0 && s[0] == QUOTE_BYTE {
            if f.len() > 0 {
                assert(s[0] == f[0]);
                assert(byte_forces_quotes(f[0], delimiter));
                assert(needs_quotes(f, delimiter));
            } else {
                assert(s[0] == rest[0]);
            }
            assert(false);
        }
        lemma_take_unquoted(f, delimiter, rest);
    }
}

/// `encoded_fields` unfolded from the front.
proof fn lemma_encoded_fields_front(fields: Seq<Seq<u8>>, delimiter: u8)
    requires
        fields.len() >= 2,
    ensures
        encoded_fields(fields, delimiter) == encoded_field(fields[0], delimiter) + seq![delimiter]
            + encoded_fields(fields.drop_first(), delimiter),
    decreases fields.len(),
{
    if fields.len() == 2 {
        assert(fields.drop_last() =~= seq![fields[0]]);
        assert(fields.drop_first() =~= seq![fields[1]]);
        assert(encoded_fields(seq![fields[0]], delimiter) == encoded_field(fields[0], delimiter));
        assert(encoded_fields(seq![fields[1]], delimiter) == encoded_field(fields[1], delimiter));
        assert(fields.last() == fields[1]);
        assert(encoded_fields(fields, delimiter) =~= encoded_field(fields[0], delimiter) + seq![
            delimiter,
        ] + encoded_fields(fields.drop_first(), delimiter));
    } else {
        let front = fields.drop_last();
        lemma_encoded_fields_front(front, delimiter);
        assert(front[0] == fields[0]);
        assert(front.drop_first() =~= fields.drop_first().drop_last());
        assert(fields.drop_first().last() == fields.last());
        assert(fields.drop_first().len() >= 2);
        assert(encoded_fields(fields.drop_first(), delimiter) == encoded_fields(
            fields.drop_first().drop_last(),
            delimiter,
        ) + seq![delimiter] + encoded_field(fields.last(), delimiter));
        assert(encoded_fields(fields, delimiter) =~= encoded_field(fields[0], delimiter) + seq![
            delimiter,
        ] + encoded_fields(fields.drop_first(), delimiter));
    }
}

/// Reading the joined fields of a record recovers them exactly.
proof fn lemma_take_fields(fields: Seq<Seq<u8>>, delimiter: u8, rest: Seq<u8>, fuel: nat)
    requires
        delimiter_ok(delimiter),
        fields.len() >= 1,
        fuel >= fields.len() + 1,
    ensures
        take_record(
            encoded_fields(fields, delimiter) + seq![LF_BYTE] + rest,
            delimiter,
            fuel,
        ) == Some((fields, rest)),
    decreases fields.len(),
{
    let s = encoded_fields(fields, delimiter) + seq![LF_BYTE] + rest;
    if fields.len() == 1 {
        let sep = seq![LF_BYTE] + rest;
        assert(s =~= encoded_field(fields[0], delimiter) + sep);
        assert(sep[0] == LF_BYTE);
        lemma_take_field(fields[0], delimiter, sep);
        assert(sep.skip(1) =~= rest);
        assert(seq![fields[0]] =~= fields);
    } else {
        lemma_encoded_fields_front(fields, delimiter);
        let tail = fields.drop_first();
        let s_tail = encoded_fields(tail, delimiter) + seq![LF_BYTE] + rest;
        let sep = seq![delimiter] + s_tail;
        assert(s =~= encoded_field(fields[0], delimiter) + sep);
        assert(sep[0] == delimiter);
        lemma_take_field(fields[0], delimiter, sep);
        assert(sep.skip(1) =~= s_tail);
        lemma_take_fields(tail, delimiter, rest, (fuel - 1) as nat);
        assert(seq![fields[0]] + tail =~= fields);
    }
}

/// How long a record at least is: one byte per field, counting the
/// separators and the terminator.
proof fn lemma_encoded_fields_len(fields: Seq<Seq<u8>>, delimiter: u8)
    ensures
        encoded_fields(fields, delimiter).len() >= fields.len() - 1,
    decreases fields.len(),
{
    if fields.len() >= 2 {
        lemma_encoded_fields_len(fields.drop_last(), delimiter);
    }
}

/// A record is at least as long as its field count, and never empty.
proof fn lemma_encoded_record_len(fields: Seq<Seq<u8>>, delimiter: u8)
    ensures
        encoded_record(fields, delimiter).len() >= fields.len(),
        encoded_record(fields, delimiter).len() >= 1,
{
    lemma_encoded_fields_len(fields, delimiter);
}

/// Reading one encoded record recovers its fields exactly.  A record
/// of one empty field goes out as a quoted empty field, and comes back
/// as exactly that one empty field.
proof fn lemma_take_record(fields: Seq<Seq<u8>>, delimiter: u8, rest: Seq<u8>, fuel: nat)
    requires
        delimiter_ok(delimiter),
        fields.len() >= 1,
        fuel >= fields.len() + 1,
    ensures
        take_record(encoded_record(fields, delimiter) + rest, delimiter, fuel) == Some(
            (fields, rest),
        ),
{
    if fields.len() == 1 && fields[0].len() == 0 {
        let s = encoded_record(fields, delimiter) + rest;
        assert(s =~= seq![QUOTE_BYTE, QUOTE_BYTE, LF_BYTE] + rest);
        assert(s[0] == QUOTE_BYTE);
        assert(s.skip(1) =~= seq![QUOTE_BYTE, LF_BYTE] + rest);
        let t = s.skip(1);
        assert(t[0] == QUOTE_BYTE && t[1] == LF_BYTE);
        assert(take_quoted(t) == Some((Seq::<u8>::empty(), t.skip(1))));
        assert(t.skip(1) =~= seq![LF_BYTE] + rest);
        assert((seq![LF_BYTE] + rest)[0] == LF_BYTE);
        assert((seq![LF_BYTE] + rest).skip(1) =~= rest);
        assert(seq![Seq::<u8>::empty()] =~~= fields);
    } else {
        assert(encoded_record(fields, delimiter) + rest =~= encoded_fields(fields, delimiter)
            + seq![LF_BYTE] + rest);
        lemma_take_fields(fields, delimiter, rest, fuel);
    }
}

/// A row stream is at least as long as its row count.
proof fn lemma_rows_output_len(rows: Seq<Seq<Option<Seq<char>>>>, delimiter: u8)
    ensures
        rows_output(rows, delimiter).len() >= rows.len(),
    decreases rows.len(),
{
    if rows.len() > 0 {
        lemma_rows_output_len(rows.drop_last(), delimiter);
        lemma_encoded_record_len(fields_of(row_text(rows.last())), delimiter);
    }
}

/// Reading a whole row stream recovers every row's fields in order.
proof fn lemma_take_rows(rows: Seq<Seq<Option<Seq<char>>>>, delimiter: u8, fuel: nat)
    requires
        delimiter_ok(delimiter),
        forall|i: int| 0 <= i < rows.len() ==> (#[trigger] rows[i]).len() >= 1,
        fuel >= rows.len() + 1,
    ensures
        take_records(rows_output(rows, delimiter), delimiter, fuel) == Some(
            rows.map_values(|r: Seq<Option<Seq<char>>>| fields_of(row_text(r))),
        ),
    decreases rows.len(),
{
    let g = |r: Seq<Option<Seq<char>>>| fields_of(row_text(r));
    let s = rows_output(rows, delimiter);
    if rows.len() == 0 {
        assert(s =~= Seq::<u8>::empty());
        assert(rows.map_values(g) =~= Seq::<Seq<Seq<u8>>>::empty());
    } else {
        crate::export::lemma_rows_output_first(rows, delimiter);
        let fields = fields_of(row_text(rows.first()));
        let tail_s = rows_output(rows.drop_first(), delimiter);
        assert(fields.len() == rows.first().len());
        lemma_encoded_record_len(fields, delimiter);
        assert(s.len() >= 1);
        lemma_rows_output_len(rows.drop_first(), delimiter);
        assert(s.len() + 1 >= fields.len() + 1) by {
            assert(s.len() >= encoded_record(fields, delimiter).len());
        }
        lemma_take_record(fields, delimiter, tail_s, s.len() + 1);
        assert(forall|i: int|
            0 <= i < rows.drop_first().len() ==> (#[trigger] rows.drop_first()[i]).len() >= 1);
        lemma_take_rows(rows.drop_first(), delimiter, (fuel - 1) as nat);
        assert(seq![fields] + rows.drop_first().map_values(g) =~~= rows.map_values(g));
    }
}

/// Round-trip law: decoding an uncompressed, headerless export yields
/// exactly the rows that were exported — each absent value as the
/// empty string, every field and every row in order.  Holds for every
/// delimiter the format can use and every result set whose rows have
/// at least one column.
pub proof fn lemma_round_trip(
    delimiter: u8,
    columns: Seq<Seq<char>>,
    rows: Seq<Seq<Option<Seq<char>>>>,
)
    requires
        delimiter_ok(delimiter),
        forall|i: int| 0 <= i < rows.len() ==> (#[trigger] rows[i]).len() >= 1,
    ensures
        decode_output(export_output(false, delimiter, columns, rows), delimiter) == Some(
            rows.map_values(|r: Seq<Option<Seq<char>>>| fields_of(row_text(r))),
        ),
{
    let s = export_output(false, delimiter, columns, rows);
    assert(s =~= rows_output(rows, delimiter));
    lemma_rows_output_len(rows, delimiter);
    lemma_take_rows(rows, delimiter, s.len() + 1);
}

} // verus!
