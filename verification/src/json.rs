//! The canonical byte encoding of a document: a compact JSON text with the
//! three collections in fixed order, string values with `\"` and `\\`
//! escapes, and boolean values as `true` / `false`. The encoding is defined
//! here as a mathematical function; the serializer is proved to produce it,
//! and the parser (in its own module) is proved to invert it.

use vstd::prelude::*;

use crate::document::{Document, DocumentModel, Entry, EntryModel, Field, FieldModel, FieldValue,
    ValueModel};

verus! {

use vstd::string::StrSliceExecFns;
use vstd::utf8::encode_utf8;

pub const QUOTE: u8 = 0x22;
pub const COMMA: u8 = 0x2c;
pub const COLON: u8 = 0x3a;
pub const BACKSLASH: u8 = 0x5c;
pub const LBRACKET: u8 = 0x5b;
pub const RBRACKET: u8 = 0x5d;
pub const LBRACE: u8 = 0x7b;
pub const RBRACE: u8 = 0x7d;

/// The bytes of the key `passwords`.
pub open spec fn key_passwords() -> Seq<u8> {
    seq![0x70u8, 0x61, 0x73, 0x73, 0x77, 0x6f, 0x72, 0x64, 0x73]
}

/// The bytes of the key `identities`.
pub open spec fn key_identities() -> Seq<u8> {
    seq![0x69u8, 0x64, 0x65, 0x6e, 0x74, 0x69, 0x74, 0x69, 0x65, 0x73]
}

/// The bytes of the key `cards`.
pub open spec fn key_cards() -> Seq<u8> {
    seq![0x63u8, 0x61, 0x72, 0x64, 0x73]
}

/// The bytes of the literal `true`.
pub open spec fn lit_true() -> Seq<u8> {
    seq![0x74u8, 0x72, 0x75, 0x65]
}

/// The bytes of the literal `false`.
pub open spec fn lit_false() -> Seq<u8> {
    seq![0x66u8, 0x61, 0x6c, 0x73, 0x65]
}

/// How one byte of a string appears inside a JSON string literal: quotes and
/// backslashes get a backslash escape, everything else stands as itself.
pub open spec fn esc_byte(b: u8) -> Seq<u8> {
    if b == QUOTE || b == BACKSLASH {
        seq![BACKSLASH, b]
    } else {
        seq![b]
    }
}

/// The escaped form of a whole byte string.
pub open spec fn escape_bytes(s: Seq<u8>) -> Seq<u8>
    decreases s.len(),
{
    if s.len() == 0 {
        seq![]
    } else {
        esc_byte(s[0]) + escape_bytes(s.drop_first())
    }
}

/// A JSON string literal: quote, escaped UTF-8 bytes, quote.
pub open spec fn string_json(s: Seq<char>) -> Seq<u8> {
    seq![QUOTE] + escape_bytes(encode_utf8(s)) + seq![QUOTE]
}

/// A field value as JSON.
pub open spec fn value_json(v: ValueModel) -> Seq<u8> {
    match v {
        ValueModel::Text(s) => string_json(s),
        ValueModel::Flag(b) => if b {
            lit_true()
        } else {
            lit_false()
        },
    }
}

/// A field as JSON: quoted name, colon, value.
pub open spec fn field_json(f: FieldModel) -> Seq<u8> {
    string_json(f.name) + seq![COLON] + value_json(f.value)
}

/// A comma-separated list of fields (without the surrounding braces).
pub open spec fn fields_json(fs: Seq<FieldModel>) -> Seq<u8>
    decreases fs.len(),
{
    if fs.len() == 0 {
        seq![]
    } else if fs.len() == 1 {
        field_json(fs[0])
    } else {
        field_json(fs[0]) + seq![COMMA] + fields_json(fs.drop_first())
    }
}

/// An entry as a JSON object.
pub open spec fn entry_json(e: EntryModel) -> Seq<u8> {
    seq![LBRACE] + fields_json(e.fields) + seq![RBRACE]
}

/// A comma-separated list of entries (without the surrounding brackets).
pub open spec fn entries_json(es: Seq<EntryModel>) -> Seq<u8>
    decreases es.len(),
{
    if es.len() == 0 {
        seq![]
    } else if es.len() == 1 {
        entry_json(es[0])
    } else {
        entry_json(es[0]) + seq![COMMA] + entries_json(es.drop_first())
    }
}

/// A collection as a JSON array of entries.
pub open spec fn array_json(es: Seq<EntryModel>) -> Seq<u8> {
    seq![LBRACKET] + entries_json(es) + seq![RBRACKET]
}

/// A quoted key followed by a colon.
pub open spec fn key_header(key: Seq<u8>) -> Seq<u8> {
    seq![QUOTE] + key + seq![QUOTE] + seq![COLON]
}

/// The canonical JSON bytes of a whole document.
pub open spec fn json_of(d: DocumentModel) -> Seq<u8> {
    seq![LBRACE] + key_header(key_passwords()) + array_json(d.passwords) + seq![COMMA]
        + key_header(key_identities()) + array_json(d.identities) + seq![COMMA]
        + key_header(key_cards()) + array_json(d.cards) + seq![RBRACE]
}

/// Escaping distributes over concatenation.
pub proof fn lemma_escape_app(a: Seq<u8>, b: Seq<u8>)
    ensures
        escape_bytes(a + b) == escape_bytes(a) + escape_bytes(b),
    decreases a.len(),
{
    if a.len() == 0 {
        assert(a + b =~= b);
        assert(escape_bytes(a) + escape_bytes(b) =~= escape_bytes(b));
    } else {
        lemma_escape_app(a.drop_first(), b);
        assert((a + b).drop_first() =~= a.drop_first() + b);
        assert(escape_bytes(a + b) =~= escape_bytes(a) + escape_bytes(b));
    }
}

/// Appending one more field extends the comma-separated list.
pub proof fn lemma_fields_json_push(fs: Seq<FieldModel>, f: FieldModel)
    ensures
        fields_json(fs.push(f)) == if fs.len() == 0 {
            field_json(f)
        } else {
            fields_json(fs) + seq![COMMA] + field_json(f)
        },
    decreases fs.len(),
{
    if fs.len() == 0 {
        assert(fs.push(f)[0] == f);
        assert(fields_json(fs.push(f)) == field_json(f));
    } else {
        lemma_fields_json_push(fs.drop_first(), f);
        assert(fs.push(f).drop_first() =~= fs.drop_first().push(f));
        assert(fs.push(f)[0] == fs[0]);
        if fs.len() == 1 {
            assert(fs.drop_first().len() == 0);
            assert(fields_json(fs) == field_json(fs[0]));
            assert(fields_json(fs.push(f)) =~= fields_json(fs) + seq![COMMA] + field_json(f));
        } else {
            assert(fields_json(fs.push(f)) =~= fields_json(fs) + seq![COMMA] + field_json(f));
        }
    }
}

/// Appending one more entry extends the comma-separated list.
pub proof fn lemma_entries_json_push(es: Seq<EntryModel>, e: EntryModel)
    ensures
        entries_json(es.push(e)) == if es.len() == 0 {
            entry_json(e)
        } else {
            entries_json(es) + seq![COMMA] + entry_json(e)
        },
    decreases es.len(),
{
    if es.len() == 0 {
        assert(es.push(e)[0] == e);
        assert(entries_json(es.push(e)) == entry_json(e));
    } else {
        lemma_entries_json_push(es.drop_first(), e);
        assert(es.push(e).drop_first() =~= es.drop_first().push(e));
        assert(es.push(e)[0] == es[0]);
        if es.len() == 1 {
            assert(es.drop_first().len() == 0);
            assert(entries_json(es) == entry_json(es[0]));
            assert(entries_json(es.push(e)) =~= entries_json(es) + seq![COMMA] + entry_json(e));
        } else {
            assert(entries_json(es.push(e)) =~= entries_json(es) + seq![COMMA] + entry_json(e));
        }
    }
}

/// Appends one JSON string literal for `s`.
fn push_string_json(out: &mut Vec<u8>, s: &String)
    ensures
        final(out)@ == old(out)@ + string_json(s@),
{
    let ghost start = out@;
    let bytes = s.as_str().as_bytes_vec();
    out.push(QUOTE);
    let mut i: usize = 0;
    while i < bytes.len()
        invariant
            i <= bytes.len(),
            bytes@ == encode_utf8(s@),
            out@ == start + seq![QUOTE] + escape_bytes(bytes@.take(i as int)),
        decreases bytes.len() - i,
    {
        let b = bytes[i];
        if b == QUOTE || b == BACKSLASH {
            out.push(BACKSLASH);
            out.push(b);
        } else {
            out.push(b);
        }
        proof {
            let t = bytes@.take(i as int);
            assert(bytes@.take(i + 1 as int) =~= t + seq![b]);
            lemma_escape_app(t, seq![b]);
            assert(seq![b].drop_first() =~= Seq::<u8>::empty());
            assert(escape_bytes(Seq::<u8>::empty()) == Seq::<u8>::empty());
            assert(seq![b][0] == b);
            assert(escape_bytes(seq![b]) =~= esc_byte(b));
            assert(out@ =~= start + seq![QUOTE] + escape_bytes(bytes@.take(i + 1 as int)));
        }
        i = i + 1;
    }
    out.push(QUOTE);
    proof {
        assert(bytes@.take(bytes@.len() as int) =~= bytes@);
        assert(final(out)@ =~= start + string_json(s@));
    }
}

/// Appends one JSON value.
fn push_value_json(out: &mut Vec<u8>, v: &FieldValue)
    ensures
        final(out)@ == old(out)@ + value_json(v@),
{
    let ghost start = out@;
    match v {
        FieldValue::Text(s) => {
            push_string_json(out, s);
        },
        FieldValue::Flag(b) => {
            if *b {
                out.push(0x74);
                out.push(0x72);
                out.push(0x75);
                out.push(0x65);
                proof {
                    assert(final(out)@ =~= start + lit_true());
                }
            } else {
                out.push(0x66);
                out.push(0x61);
                out.push(0x6c);
                out.push(0x73);
                out.push(0x65);
                proof {
                    assert(final(out)@ =~= start + lit_false());
                }
            }
        },
    }
}

/// Appends one field: quoted name, colon, value.
fn push_field_json(out: &mut Vec<u8>, f: &Field)
    ensures
        final(out)@ == old(out)@ + field_json(f@),
{
    let ghost start = out@;
    push_string_json(out, &f.name);
    out.push(COLON);
    push_value_json(out, &f.value);
    proof {
        assert(final(out)@ =~= start + field_json(f@));
    }
}

/// Appends one entry as a JSON object.
fn push_entry_json(out: &mut Vec<u8>, e: &Entry)
    ensures
        final(out)@ == old(out)@ + entry_json(e@),
{
    let ghost start = out@;
    out.push(LBRACE);
    let mut i: usize = 0;
    while i < e.fields.len()
        invariant
            i <= e.fields.len(),
            e@.fields.len() == e.fields.len(),
            out@ == start + seq![LBRACE] + fields_json(e@.fields.take(i as int)),
        decreases e.fields.len() - i,
    {
        if i > 0 {
            out.push(COMMA);
        }
        push_field_json(out, &e.fields[i]);
        proof {
            assert(e@.fields[i as int] == e.fields@[i as int]@);
            assert(e@.fields.take(i + 1 as int) =~= e@.fields.take(i as int).push(
                e@.fields[i as int],
            ));
            lemma_fields_json_push(e@.fields.take(i as int), e@.fields[i as int]);
            assert(out@ =~= start + seq![LBRACE] + fields_json(e@.fields.take(i + 1 as int)));
        }
        i = i + 1;
    }
    out.push(RBRACE);
    proof {
        assert(e@.fields.take(e@.fields.len() as int) =~= e@.fields);
        assert(final(out)@ =~= start + entry_json(e@));
    }
}

/// Appends one collection as a JSON array.
fn push_array_json(out: &mut Vec<u8>, es: &Vec<Entry>)
    ensures
        final(out)@ == old(out)@ + array_json(es@.map_values(|e: Entry| e@)),
{
    let ghost start = out@;
    let ghost model = es@.map_values(|e: Entry| e@);
    out.push(LBRACKET);
    let mut i: usize = 0;
    while i < es.len()
        invariant
            i <= es.len(),
            model == es@.map_values(|e: Entry| e@),
            model.len() == es.len(),
            out@ == start + seq![LBRACKET] + entries_json(model.take(i as int)),
        decreases es.len() - i,
    {
        if i > 0 {
            out.push(COMMA);
        }
        push_entry_json(out, &es[i]);
        proof {
            assert(model[i as int] == es@[i as int]@);
            assert(model.take(i + 1 as int) =~= model.take(i as int).push(model[i as int]));
            lemma_entries_json_push(model.take(i as int), model[i as int]);
            assert(out@ =~= start + seq![LBRACKET] + entries_json(model.take(i + 1 as int)));
        }
        i = i + 1;
    }
    out.push(RBRACKET);
    proof {
        assert(model.take(model.len() as int) =~= model);
        assert(final(out)@ =~= start + array_json(model));
    }
}

/// Appends a quoted key and a colon, for one of the three fixed keys.
fn push_key_header(out: &mut Vec<u8>, which: u8)
    requires
        which == 0 || which == 1 || which == 2,
    ensures
        which == 0 ==> final(out)@ == old(out)@ + key_header(key_passwords()),
        which == 1 ==> final(out)@ == old(out)@ + key_header(key_identities()),
        which == 2 ==> final(out)@ == old(out)@ + key_header(key_cards()),
{
    let ghost start = out@;
    out.push(QUOTE);
    if which == 0 {
        out.push(0x70);
        out.push(0x61);
        out.push(0x73);
        out.push(0x73);
        out.push(0x77);
        out.push(0x6f);
        out.push(0x72);
        out.push(0x64);
        out.push(0x73);
    } else if which == 1 {
        out.push(0x69);
        out.push(0x64);
        out.push(0x65);
        out.push(0x6e);
        out.push(0x74);
        out.push(0x69);
        out.push(0x74);
        out.push(0x69);
        out.push(0x65);
        out.push(0x73);
    } else {
        out.push(0x63);
        out.push(0x61);
        out.push(0x72);
        out.push(0x64);
        out.push(0x73);
    }
    out.push(QUOTE);
    out.push(COLON);
    proof {
        if which == 0 {
            assert(final(out)@ =~= start + key_header(key_passwords()));
        } else if which == 1 {
            assert(final(out)@ =~= start + key_header(key_identities()));
        } else {
            assert(final(out)@ =~= start + key_header(key_cards()));
        }
    }
}

/// Serializes a document to its canonical JSON bytes.
pub fn serialize_document(d: &Document) -> (r: Vec<u8>)
    ensures
        r@ == json_of(d@),
{
    let mut out: Vec<u8> = Vec::new();
    out.push(LBRACE);
    push_key_header(&mut out, 0);
    push_array_json(&mut out, &d.passwords);
    out.push(COMMA);
    push_key_header(&mut out, 1);
    push_array_json(&mut out, &d.identities);
    out.push(COMMA);
    push_key_header(&mut out, 2);
    push_array_json(&mut out, &d.cards);
    out.push(RBRACE);
    proof {
        assert(out@ =~= json_of(d@));
    }
    out
}

} // verus!
