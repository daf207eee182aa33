//! The strict parser for the canonical document encoding. The grammar is
//! defined as a family of recursive specification parsers over byte
//! sequences; the executable parser is proved to return exactly what they
//! describe, and the parsers are proved to invert the serializer.

use vstd::prelude::*;

use crate::document::{Document, DocumentModel, Entry, EntryModel, Field, FieldModel, FieldValue,
    ValueModel};
use crate::json::{QUOTE, COMMA, COLON, BACKSLASH, LBRACKET, RBRACKET, LBRACE, RBRACE};
use crate::json::{key_passwords, key_identities, key_cards, lit_true, lit_false, key_header};
use crate::json::{esc_byte, escape_bytes, string_json, value_json, field_json, fields_json,
    entry_json, entries_json, array_json, json_of};

verus! {

use vstd::utf8::decode_utf8;
use vstd::utf8::valid_utf8;

/// Reads the body of a string literal from `i` (just past the opening
/// quote) to its closing quote, undoing the two escapes.
pub open spec fn parse_string_body(s: Seq<u8>, i: int) -> Option<(Seq<u8>, int)>
    decreases s.len() - i,
{
    if i < 0 || i >= s.len() {
        None
    } else if s[i] == QUOTE {
        Some((seq![], i + 1))
    } else if s[i] == BACKSLASH {
        if i + 1 < s.len() && (s[i + 1] == QUOTE || s[i + 1] == BACKSLASH) {
            match parse_string_body(s, i + 2) {
                Some((t, j)) => Some((seq![s[i + 1]] + t, j)),
                None => None,
            }
        } else {
            None
        }
    } else {
        match parse_string_body(s, i + 1) {
            Some((t, j)) => Some((seq![s[i]] + t, j)),
            None => None,
        }
    }
}

/// Reads a whole string literal, opening quote included.
pub open spec fn parse_string(s: Seq<u8>, i: int) -> Option<(Seq<u8>, int)> {
    if 0 <= i < s.len() && s[i] == QUOTE {
        parse_string_body(s, i + 1)
    } else {
        None
    }
}

/// True when `pat` occurs in `s` at position `i`.
pub open spec fn bytes_at(s: Seq<u8>, i: int, pat: Seq<u8>) -> bool {
    0 <= i && i + pat.len() <= s.len() && s.subrange(i, i + pat.len()) == pat
}

/// Reads a field value: a string literal or a boolean literal.
pub open spec fn parse_value(s: Seq<u8>, i: int) -> Option<(ValueModel, int)> {
    if i < 0 || i >= s.len() {
        None
    } else if s[i] == QUOTE {
        match parse_string_body(s, i + 1) {
            Some((b, j)) => if valid_utf8(b) {
                Some((ValueModel::Text(decode_utf8(b)), j))
            } else {
                None
            },
            None => None,
        }
    } else if s[i] == 0x74 {
        if bytes_at(s, i, lit_true()) {
            Some((ValueModel::Flag(true), i + 4))
        } else {
            None
        }
    } else if s[i] == 0x66 {
        if bytes_at(s, i, lit_false()) {
            Some((ValueModel::Flag(false), i + 5))
        } else {
            None
        }
    } else {
        None
    }
}

/// Reads one field: quoted name, colon, value.
pub open spec fn parse_field(s: Seq<u8>, i: int) -> Option<(FieldModel, int)> {
    match parse_string(s, i) {
        Some((nb, j)) => if valid_utf8(nb) && j < s.len() && s[j] == COLON {
            match parse_value(s, j + 1) {
                Some((v, k)) => Some((FieldModel { name: decode_utf8(nb), value: v }, k)),
                None => None,
            }
        } else {
            None
        },
        None => None,
    }
}

/// Reads a non-empty comma-separated field list up to and including the
/// closing brace.
pub open spec fn parse_members(s: Seq<u8>, i: int) -> Option<(Seq<FieldModel>, int)>
    decreases s.len() - i,
{
    if i < 0 {
        None
    } else {
        match parse_field(s, i) {
            Some((f, j)) => if j <= i || j >= s.len() {
                None
            } else if s[j] == RBRACE {
                Some((seq![f], j + 1))
            } else if s[j] == COMMA {
                match parse_members(s, j + 1) {
                    Some((fs, k)) => Some((seq![f] + fs, k)),
                    None => None,
                }
            } else {
                None
            },
            None => None,
        }
    }
}

/// Reads one entry object, braces included.
pub open spec fn parse_entry(s: Seq<u8>, i: int) -> Option<(EntryModel, int)> {
    if !(0 <= i < s.len() && s[i] == LBRACE) {
        None
    } else if i + 1 < s.len() && s[i + 1] == RBRACE {
        Some((EntryModel { fields: seq![] }, i + 2))
    } else {
        match parse_members(s, i + 1) {
            Some((fs, j)) => Some((EntryModel { fields: fs }, j)),
            None => None,
        }
    }
}

/// Reads a non-empty comma-separated entry list up to and including the
/// closing bracket.
pub open spec fn parse_items(s: Seq<u8>, i: int) -> Option<(Seq<EntryModel>, int)>
    decreases s.len() - i,
{
    if i < 0 {
        None
    } else {
        match parse_entry(s, i) {
            Some((e, j)) => if j <= i || j >= s.len() {
                None
            } else if s[j] == RBRACKET {
                Some((seq![e], j + 1))
            } else if s[j] == COMMA {
                match parse_items(s, j + 1) {
                    Some((es, k)) => Some((seq![e] + es, k)),
                    None => None,
                }
            } else {
                None
            },
            None => None,
        }
    }
}

/// Reads one collection array, brackets included.
pub open spec fn parse_array(s: Seq<u8>, i: int) -> Option<(Seq<EntryModel>, int)> {
    if !(0 <= i < s.len() && s[i] == LBRACKET) {
        None
    } else if i + 1 < s.len() && s[i + 1] == RBRACKET {
        Some((seq![], i + 2))
    } else {
        match parse_items(s, i + 1) {
            Some((es, j)) => Some((es, j)),
            None => None,
        }
    }
}

/// Reads a whole document; the entire input must be consumed.
pub open spec fn parse_document_spec(s: Seq<u8>) -> Option<DocumentModel> {
    let h0 = seq![LBRACE] + key_header(key_passwords());
    let h1 = seq![COMMA] + key_header(key_identities());
    let h2 = seq![COMMA] + key_header(key_cards());
    if !bytes_at(s, 0, h0) {
        None
    } else {
        match parse_array(s, h0.len() as int) {
            Some((ps, i1)) => if !bytes_at(s, i1, h1) {
                None
            } else {
                match parse_array(s, i1 + h1.len()) {
                    Some((ids, i2)) => if !bytes_at(s, i2, h2) {
                        None
                    } else {
                        match parse_array(s, i2 + h2.len()) {
                            Some((cs, i3)) => if i3 + 1 == s.len() && s[i3] == RBRACE {
                                Some(DocumentModel { passwords: ps, identities: ids, cards: cs })
                            } else {
                                None
                            },
                            None => None,
                        }
                    },
                    None => None,
                }
            },
            None => None,
        }
    }
}

/// A successful string-body parse lands strictly right of where it started
/// and within the input.
pub proof fn lemma_string_body_bounds(s: Seq<u8>, i: int)
    ensures
        parse_string_body(s, i) matches Some(r) ==> i < r.1 <= s.len(),
    decreases s.len() - i,
{
    if 0 <= i < s.len() {
        if s[i] == QUOTE {
        } else if s[i] == BACKSLASH {
            if i + 1 < s.len() && (s[i + 1] == QUOTE || s[i + 1] == BACKSLASH) {
                lemma_string_body_bounds(s, i + 2);
            }
        } else {
            lemma_string_body_bounds(s, i + 1);
        }
    }
}

/// A successful value parse lands strictly right of where it started and
/// within the input.
pub proof fn lemma_value_bounds(s: Seq<u8>, i: int)
    ensures
        parse_value(s, i) matches Some(r) ==> i < r.1 <= s.len(),
{
    if 0 <= i < s.len() && s[i] == QUOTE {
        lemma_string_body_bounds(s, i + 1);
    }
}

/// A successful field parse lands strictly right of where it started and
/// within the input.
pub proof fn lemma_field_bounds(s: Seq<u8>, i: int)
    ensures
        parse_field(s, i) matches Some(r) ==> i < r.1 <= s.len(),
{
    if 0 <= i < s.len() && s[i] == QUOTE {
        lemma_string_body_bounds(s, i + 1);
        if let Some((nb, j)) = parse_string(s, i) {
            lemma_value_bounds(s, j + 1);
        }
    }
}

/// A successful member-list parse lands strictly right of where it started
/// and within the input.
pub proof fn lemma_members_bounds(s: Seq<u8>, i: int)
    ensures
        parse_members(s, i) matches Some(r) ==> i < r.1 <= s.len(),
    decreases s.len() - i,
{
    if i >= 0 {
        lemma_field_bounds(s, i);
        if let Some((f, j)) = parse_field(s, i) {
            if i < j && j < s.len() && s[j] == COMMA {
                lemma_members_bounds(s, j + 1);
            }
        }
    }
}

/// A successful entry parse lands strictly right of where it started and
/// within the input.
pub proof fn lemma_entry_bounds(s: Seq<u8>, i: int)
    ensures
        parse_entry(s, i) matches Some(r) ==> i < r.1 <= s.len(),
{
    if 0 <= i < s.len() && s[i] == LBRACE {
        lemma_members_bounds(s, i + 1);
    }
}

/// A successful item-list parse lands strictly right of where it started
/// and within the input.
pub proof fn lemma_items_bounds(s: Seq<u8>, i: int)
    ensures
        parse_items(s, i) matches Some(r) ==> i < r.1 <= s.len(),
    decreases s.len() - i,
{
    if i >= 0 {
        lemma_entry_bounds(s, i);
        if let Some((e, j)) = parse_entry(s, i) {
            if i < j && j < s.len() && s[j] == COMMA {
                lemma_items_bounds(s, j + 1);
            }
        }
    }
}

/// A successful array parse lands strictly right of where it started and
/// within the input.
pub proof fn lemma_array_bounds(s: Seq<u8>, i: int)
    ensures
        parse_array(s, i) matches Some(r) ==> i < r.1 <= s.len(),
{
    if 0 <= i < s.len() && s[i] == LBRACKET {
        lemma_items_bounds(s, i + 1);
    }
}

/// Every JSON value encoding is at least two bytes long.
proof fn lemma_value_json_len(v: ValueModel)
    ensures
        value_json(v).len() >= 2,
{
}

/// Reading an escaped string body followed by a closing quote recovers the
/// original bytes and stops just past the quote.
pub proof fn lemma_string_body_complete(s: Seq<u8>, i: int, v: Seq<u8>)
    requires
        0 <= i,
        i + escape_bytes(v).len() + 1 <= s.len(),
        s.subrange(i, i + escape_bytes(v).len()) == escape_bytes(v),
        s[i + escape_bytes(v).len()] == QUOTE,
    ensures
        parse_string_body(s, i) == Some((v, i + escape_bytes(v).len() + 1)),
    decreases v.len(),
{
    let e = escape_bytes(v);
    assert forall|k: int| 0 <= k < e.len() implies s[i + k] == e[k] by {
        assert(s.subrange(i, i + e.len())[k] == s[i + k]);
    }
    if v.len() == 0 {
        assert(e =~= Seq::<u8>::empty());
        assert(s[i] == QUOTE);
        assert(v =~= Seq::<u8>::empty());
    } else {
        let v0 = v[0];
        let vr = v.drop_first();
        let e0 = esc_byte(v0);
        let er = escape_bytes(vr);
        assert(e == e0 + er);
        if v0 == QUOTE || v0 == BACKSLASH {
            assert(e0 == seq![BACKSLASH, v0]);
            assert(s[i] == e[0] && e[0] == BACKSLASH);
            assert(s[i + 1] == e[1] && e[1] == v0);
            assert(s.subrange(i + 2, i + 2 + er.len()) =~= er) by {
                assert forall|k: int| 0 <= k < er.len() implies s[i + 2 + k] == er[k] by {
                    assert(e[2 + k] == er[k]);
                }
            }
            assert(s[i + 2 + er.len()] == QUOTE);
            lemma_string_body_complete(s, i + 2, vr);
            assert(seq![s[i + 1]] + vr =~= v);
        } else {
            assert(e0 == seq![v0]);
            assert(s[i] == e[0] && e[0] == v0);
            assert(s.subrange(i + 1, i + 1 + er.len()) =~= er) by {
                assert forall|k: int| 0 <= k < er.len() implies s[i + 1 + k] == er[k] by {
                    assert(e[1 + k] == er[k]);
                }
            }
            assert(s[i + 1 + er.len()] == QUOTE);
            lemma_string_body_complete(s, i + 1, vr);
            assert(seq![s[i]] + vr =~= v);
        }
    }
}

/// Reading at the start of an encoded value recovers that value.
pub proof fn lemma_value_complete(s: Seq<u8>, i: int, v: ValueModel)
    requires
        0 <= i,
        i + value_json(v).len() <= s.len(),
        s.subrange(i, i + value_json(v).len()) == value_json(v),
    ensures
        parse_value(s, i) == Some((v, i + value_json(v).len())),
{
    broadcast use vstd::utf8::encode_utf8_valid_utf8;
    broadcast use vstd::utf8::encode_utf8_decode_utf8;

    let vj = value_json(v);
    assert forall|k: int| 0 <= k < vj.len() implies s[i + k] == vj[k] by {
        assert(s.subrange(i, i + vj.len())[k] == s[i + k]);
    }
    lemma_value_json_len(v);
    match v {
        ValueModel::Text(t) => {
            let eb = vstd::utf8::encode_utf8(t);
            let e = escape_bytes(eb);
            assert(vj == seq![QUOTE] + e + seq![QUOTE]);
            assert(s[i] == vj[0] && vj[0] == QUOTE);
            assert(s.subrange(i + 1, i + 1 + e.len()) =~= e) by {
                assert forall|k: int| 0 <= k < e.len() implies s[i + 1 + k] == e[k] by {
                    assert(vj[1 + k] == e[k]);
                }
            }
            assert(s[i + 1 + e.len()] == vj[vj.len() - 1] && vj[vj.len() - 1] == QUOTE);
            lemma_string_body_complete(s, i + 1, eb);
            assert(valid_utf8(eb));
            assert(decode_utf8(eb) == t);
        },
        ValueModel::Flag(b) => {
            if b {
                assert(vj == lit_true());
                assert(s[i] == 0x74);
                assert(s.subrange(i, i + 4) == lit_true());
                assert(bytes_at(s, i, lit_true()));
            } else {
                assert(vj == lit_false());
                assert(s[i] == 0x66);
                assert(s.subrange(i, i + 5) == lit_false());
                assert(bytes_at(s, i, lit_false()));
            }
        },
    }
}

/// Reading at the start of an encoded field recovers that field.
pub proof fn lemma_field_complete(s: Seq<u8>, i: int, f: FieldModel)
    requires
        0 <= i,
        i + field_json(f).len() <= s.len(),
        s.subrange(i, i + field_json(f).len()) == field_json(f),
    ensures
        parse_field(s, i) == Some((f, i + field_json(f).len())),
{
    broadcast use vstd::utf8::encode_utf8_valid_utf8;
    broadcast use vstd::utf8::encode_utf8_decode_utf8;

    let fj = field_json(f);
    let sj = string_json(f.name);
    let vj = value_json(f.value);
    let nb = vstd::utf8::encode_utf8(f.name);
    let e = escape_bytes(nb);
    assert forall|k: int| 0 <= k < fj.len() implies s[i + k] == fj[k] by {
        assert(s.subrange(i, i + fj.len())[k] == s[i + k]);
    }
    assert(fj == sj + seq![COLON] + vj);
    assert(sj == seq![QUOTE] + e + seq![QUOTE]);
    lemma_value_json_len(f.value);
    assert(s[i] == fj[0] && fj[0] == QUOTE);
    assert(s.subrange(i + 1, i + 1 + e.len()) =~= e) by {
        assert forall|k: int| 0 <= k < e.len() implies s[i + 1 + k] == e[k] by {
            assert(fj[1 + k] == e[k]);
        }
    }
    assert(s[i + 1 + e.len()] == fj[sj.len() - 1] && fj[sj.len() - 1] == QUOTE);
    lemma_string_body_complete(s, i + 1, nb);
    let j = i + sj.len();
    assert(parse_string(s, i) == Some((nb, j)));
    assert(valid_utf8(nb));
    assert(decode_utf8(nb) == f.name);
    assert(s[j] == fj[sj.len() as int] && fj[sj.len() as int] == COLON);
    assert(j < s.len());
    assert(s.subrange(j + 1, j + 1 + vj.len()) =~= vj) by {
        assert forall|k: int| 0 <= k < vj.len() implies s[j + 1 + k] == vj[k] by {
            assert(fj[sj.len() + 1 + k] == vj[k]);
        }
    }
    lemma_value_complete(s, j + 1, f.value);
    assert(FieldModel { name: decode_utf8(nb), value: f.value } =~= f);
    assert(j + 1 + vj.len() == i + fj.len());
}

/// Reading a non-empty encoded field list followed by a closing brace
/// recovers the fields and stops just past the brace.
pub proof fn lemma_members_complete(s: Seq<u8>, i: int, fs: Seq<FieldModel>)
    requires
        fs.len() >= 1,
        0 <= i,
        i + fields_json(fs).len() + 1 <= s.len(),
        s.subrange(i, i + fields_json(fs).len()) == fields_json(fs),
        s[i + fields_json(fs).len()] == RBRACE,
    ensures
        parse_members(s, i) == Some((fs, i + fields_json(fs).len() + 1)),
    decreases fs.len(),
{
    let fj = fields_json(fs);
    let f0 = field_json(fs[0]);
    assert forall|k: int| 0 <= k < fj.len() implies s[i + k] == fj[k] by {
        assert(s.subrange(i, i + fj.len())[k] == s[i + k]);
    }
    if fs.len() == 1 {
        assert(fj == f0);
        assert(s.subrange(i, i + f0.len()) == f0);
        lemma_field_complete(s, i, fs[0]);
        lemma_field_bounds(s, i);
        let j = i + f0.len();
        assert(s[j] == RBRACE);
        assert(seq![fs[0]] =~= fs);
    } else {
        assert(fj == f0 + seq![COMMA] + fields_json(fs.drop_first()));
        let fr = fields_json(fs.drop_first());
        assert(s.subrange(i, i + f0.len()) =~= f0) by {
            assert forall|k: int| 0 <= k < f0.len() implies s[i + k] == f0[k] by {
                assert(fj[k] == f0[k]);
            }
        }
        lemma_field_complete(s, i, fs[0]);
        lemma_field_bounds(s, i);
        let j = i + f0.len();
        assert(s[j] == fj[f0.len() as int] && fj[f0.len() as int] == COMMA);
        assert(s.subrange(j + 1, j + 1 + fr.len()) =~= fr) by {
            assert forall|k: int| 0 <= k < fr.len() implies s[j + 1 + k] == fr[k] by {
                assert(fj[f0.len() + 1 + k] == fr[k]);
            }
        }
        assert(s[j + 1 + fr.len()] == RBRACE);
        lemma_members_complete(s, j + 1, fs.drop_first());
        assert(seq![fs[0]] + fs.drop_first() =~= fs);
    }
}

/// Reading at the start of an encoded entry recovers that entry.
pub proof fn lemma_entry_complete(s: Seq<u8>, i: int, e: EntryModel)
    requires
        0 <= i,
        i + entry_json(e).len() <= s.len(),
        s.subrange(i, i + entry_json(e).len()) == entry_json(e),
    ensures
        parse_entry(s, i) == Some((e, i + entry_json(e).len())),
{
    let ej = entry_json(e);
    let fj = fields_json(e.fields);
    assert forall|k: int| 0 <= k < ej.len() implies s[i + k] == ej[k] by {
        assert(s.subrange(i, i + ej.len())[k] == s[i + k]);
    }
    assert(ej == seq![LBRACE] + fj + seq![RBRACE]);
    assert(s[i] == ej[0] && ej[0] == LBRACE);
    if e.fields.len() == 0 {
        assert(fj =~= Seq::<u8>::empty());
        assert(s[i + 1] == ej[1] && ej[1] == RBRACE);
        assert(EntryModel { fields: seq![] } =~= e);
    } else {
        let f0 = field_json(e.fields[0]);
        assert(fj[0] == f0[0]);
        assert(f0[0] == QUOTE);
        assert(s[i + 1] == ej[1] && ej[1] == fj[0]);
        assert(s[i + 1] != RBRACE);
        assert(s.subrange(i + 1, i + 1 + fj.len()) =~= fj) by {
            assert forall|k: int| 0 <= k < fj.len() implies s[i + 1 + k] == fj[k] by {
                assert(ej[1 + k] == fj[k]);
            }
        }
        assert(s[i + 1 + fj.len()] == ej[ej.len() - 1] && ej[ej.len() - 1] == RBRACE);
        lemma_members_complete(s, i + 1, e.fields);
        assert(EntryModel { fields: e.fields } =~= e);
    }
}

/// Reading a non-empty encoded entry list followed by a closing bracket
/// recovers the entries and stops just past the bracket.
pub proof fn lemma_items_complete(s: Seq<u8>, i: int, es: Seq<EntryModel>)
    requires
        es.len() >= 1,
        0 <= i,
        i + entries_json(es).len() + 1 <= s.len(),
        s.subrange(i, i + entries_json(es).len()) == entries_json(es),
        s[i + entries_json(es).len()] == RBRACKET,
    ensures
        parse_items(s, i) == Some((es, i + entries_json(es).len() + 1)),
    decreases es.len(),
{
    let ej = entries_json(es);
    let e0 = entry_json(es[0]);
    assert forall|k: int| 0 <= k < ej.len() implies s[i + k] == ej[k] by {
        assert(s.subrange(i, i + ej.len())[k] == s[i + k]);
    }
    if es.len() == 1 {
        assert(ej == e0);
        assert(s.subrange(i, i + e0.len()) == e0);
        lemma_entry_complete(s, i, es[0]);
        lemma_entry_bounds(s, i);
        let j = i + e0.len();
        assert(s[j] == RBRACKET);
        assert(seq![es[0]] =~= es);
    } else {
        assert(ej == e0 + seq![COMMA] + entries_json(es.drop_first()));
        let er = entries_json(es.drop_first());
        assert(s.subrange(i, i + e0.len()) =~= e0) by {
            assert forall|k: int| 0 <= k < e0.len() implies s[i + k] == e0[k] by {
                assert(ej[k] == e0[k]);
            }
        }
        lemma_entry_complete(s, i, es[0]);
        lemma_entry_bounds(s, i);
        let j = i + e0.len();
        assert(s[j] == ej[e0.len() as int] && ej[e0.len() as int] == COMMA);
        assert(s.subrange(j + 1, j + 1 + er.len()) =~= er) by {
            assert forall|k: int| 0 <= k < er.len() implies s[j + 1 + k] == er[k] by {
                assert(ej[e0.len() + 1 + k] == er[k]);
            }
        }
        assert(s[j + 1 + er.len()] == RBRACKET);
        lemma_items_complete(s, j + 1, es.drop_first());
        assert(seq![es[0]] + es.drop_first() =~= es);
    }
}

/// Reading at the start of an encoded array recovers that entry list.
pub proof fn lemma_array_complete(s: Seq<u8>, i: int, es: Seq<EntryModel>)
    requires
        0 <= i,
        i + array_json(es).len() <= s.len(),
        s.subrange(i, i + array_json(es).len()) == array_json(es),
    ensures
        parse_array(s, i) == Some((es, i + array_json(es).len())),
{
    let aj = array_json(es);
    let ej = entries_json(es);
    assert forall|k: int| 0 <= k < aj.len() implies s[i + k] == aj[k] by {
        assert(s.subrange(i, i + aj.len())[k] == s[i + k]);
    }
    assert(aj == seq![LBRACKET] + ej + seq![RBRACKET]);
    assert(s[i] == aj[0] && aj[0] == LBRACKET);
    if es.len() == 0 {
        assert(ej =~= Seq::<u8>::empty());
        assert(s[i + 1] == aj[1] && aj[1] == RBRACKET);
        assert(Seq::<EntryModel>::empty() =~= es);
    } else {
        let e0 = entry_json(es[0]);
        assert(ej[0] == e0[0]);
        assert(e0[0] == LBRACE);
        assert(s[i + 1] == aj[1] && aj[1] == ej[0]);
        assert(s[i + 1] != RBRACKET);
        assert(s.subrange(i + 1, i + 1 + ej.len()) =~= ej) by {
            assert forall|k: int| 0 <= k < ej.len() implies s[i + 1 + k] == ej[k] by {
                assert(aj[1 + k] == ej[k]);
            }
        }
        assert(s[i + 1 + ej.len()] == aj[aj.len() - 1] && aj[aj.len() - 1] == RBRACKET);
        lemma_items_complete(s, i + 1, es);
    }
}

/// The parser inverts the serializer: reading the canonical encoding of any
/// document yields exactly that document.
pub proof fn lemma_document_complete(d: DocumentModel)
    ensures
        parse_document_spec(json_of(d)) == Some(d),
{
    let s = json_of(d);
    let h0 = seq![LBRACE] + key_header(key_passwords());
    let h1 = seq![COMMA] + key_header(key_identities());
    let h2 = seq![COMMA] + key_header(key_cards());
    let ap = array_json(d.passwords);
    let ai = array_json(d.identities);
    let ac = array_json(d.cards);
    assert(s =~= h0 + ap + h1 + ai + h2 + ac + seq![RBRACE]);
    let i1: int = h0.len() + ap.len() as int;
    let i2: int = i1 + h1.len() + ai.len();
    let i3: int = i2 + h2.len() + ac.len();
    assert(s.subrange(0, h0.len() as int) =~= h0);
    assert(bytes_at(s, 0, h0));
    assert(s.subrange(h0.len() as int, i1) =~= ap);
    lemma_array_complete(s, h0.len() as int, d.passwords);
    assert(s.subrange(i1, i1 + h1.len()) =~= h1);
    assert(bytes_at(s, i1, h1));
    assert(s.subrange(i1 + h1.len(), i2) =~= ai);
    lemma_array_complete(s, i1 + h1.len(), d.identities);
    assert(s.subrange(i2, i2 + h2.len()) =~= h2);
    assert(bytes_at(s, i2, h2));
    assert(s.subrange(i2 + h2.len(), i3) =~= ac);
    lemma_array_complete(s, i2 + h2.len(), d.cards);
    assert(s[i3] == RBRACE);
    assert(i3 + 1 == s.len());
    assert(DocumentModel { passwords: d.passwords, identities: d.identities, cards: d.cards }
        =~= d);
}

/// A successful string-body parse read exactly the escaped form of its
/// result, followed by the closing quote.
pub proof fn lemma_string_body_sound(s: Seq<u8>, i: int)
    ensures
        parse_string_body(s, i) matches Some(r) ==> {
            &&& r.1 == i + escape_bytes(r.0).len() + 1
            &&& s.subrange(i, r.1 - 1) == escape_bytes(r.0)
            &&& s[r.1 - 1] == QUOTE
        },
    decreases s.len() - i,
{
    if 0 <= i < s.len() {
        if s[i] == QUOTE {
            if let Some((v, j)) = parse_string_body(s, i) {
                assert(escape_bytes(v) =~= Seq::<u8>::empty());
                assert(s.subrange(i, i) =~= Seq::<u8>::empty());
            }
        } else if s[i] == BACKSLASH {
            if i + 1 < s.len() && (s[i + 1] == QUOTE || s[i + 1] == BACKSLASH) {
                lemma_string_body_sound(s, i + 2);
                lemma_string_body_bounds(s, i + 2);
                if let Some((t, j)) = parse_string_body(s, i + 2) {
                    let v = seq![s[i + 1]] + t;
                    assert(v.drop_first() =~= t);
                    assert(esc_byte(v[0]) =~= seq![BACKSLASH, s[i + 1]]);
                    assert(escape_bytes(v) =~= esc_byte(v[0]) + escape_bytes(t));
                    assert(s.subrange(i, i + 2) =~= seq![BACKSLASH, s[i + 1]]);
                    assert(s.subrange(i, j - 1) =~= s.subrange(i, i + 2) + s.subrange(
                        i + 2,
                        j - 1,
                    ));
                    assert(s.subrange(i, j - 1) == escape_bytes(v));
                }
            }
        } else {
            lemma_string_body_sound(s, i + 1);
            lemma_string_body_bounds(s, i + 1);
            if let Some((t, j)) = parse_string_body(s, i + 1) {
                let v = seq![s[i]] + t;
                assert(v.drop_first() =~= t);
                assert(esc_byte(v[0]) =~= seq![s[i]]);
                assert(escape_bytes(v) =~= esc_byte(v[0]) + escape_bytes(t));
                assert(s.subrange(i, i + 1) =~= seq![s[i]]);
                assert(s.subrange(i, j - 1) =~= s.subrange(i, i + 1) + s.subrange(i + 1, j - 1));
                assert(s.subrange(i, j - 1) == escape_bytes(v));
            }
        }
    }
}

/// A successful value parse read exactly the encoding of its result.
pub proof fn lemma_value_sound(s: Seq<u8>, i: int)
    ensures
        parse_value(s, i) matches Some(r) ==> s.subrange(i, r.1) == value_json(r.0),
{
    broadcast use vstd::utf8::decode_utf8_encode_utf8;

    if 0 <= i < s.len() {
        if s[i] == QUOTE {
            lemma_string_body_sound(s, i + 1);
            lemma_string_body_bounds(s, i + 1);
            if let Some((b, j)) = parse_string_body(s, i + 1) {
                if valid_utf8(b) {
                    assert(vstd::utf8::encode_utf8(decode_utf8(b)) == b);
                    assert(s.subrange(i, j) =~= seq![QUOTE] + escape_bytes(b) + seq![QUOTE]);
                }
            }
        } else if s[i] == 0x74 {
            if bytes_at(s, i, lit_true()) {
            }
        } else if s[i] == 0x66 {
            if bytes_at(s, i, lit_false()) {
            }
        }
    }
}

/// A successful field parse read exactly the encoding of its result.
pub proof fn lemma_field_sound(s: Seq<u8>, i: int)
    ensures
        parse_field(s, i) matches Some(r) ==> s.subrange(i, r.1) == field_json(r.0),
{
    broadcast use vstd::utf8::decode_utf8_encode_utf8;

    if 0 <= i < s.len() && s[i] == QUOTE {
        lemma_string_body_sound(s, i + 1);
        lemma_string_body_bounds(s, i + 1);
        if let Some((nb, j)) = parse_string_body(s, i + 1) {
            if valid_utf8(nb) && j < s.len() && s[j] == COLON {
                lemma_value_sound(s, j + 1);
                lemma_value_bounds(s, j + 1);
                if let Some((v, k)) = parse_value(s, j + 1) {
                    let f = FieldModel { name: decode_utf8(nb), value: v };
                    assert(vstd::utf8::encode_utf8(decode_utf8(nb)) == nb);
                    assert(string_json(f.name) =~= seq![QUOTE] + escape_bytes(nb) + seq![QUOTE]);
                    assert(s.subrange(i, k) =~= string_json(f.name) + seq![COLON] + value_json(v));
                }
            }
        }
    }
}

/// A successful member-list parse read exactly the encoding of its result,
/// followed by the closing brace.
pub proof fn lemma_members_sound(s: Seq<u8>, i: int)
    ensures
        parse_members(s, i) matches Some(r) ==> {
            &&& r.0.len() >= 1
            &&& r.1 == i + fields_json(r.0).len() + 1
            &&& s.subrange(i, r.1 - 1) == fields_json(r.0)
            &&& s[r.1 - 1] == RBRACE
        },
    decreases s.len() - i,
{
    if i >= 0 {
        lemma_field_sound(s, i);
        lemma_field_bounds(s, i);
        if let Some((f, j)) = parse_field(s, i) {
            if i < j && j < s.len() {
                if s[j] == RBRACE {
                    let fs = seq![f];
                    assert(fs[0] == f);
                    assert(fields_json(fs) == field_json(f));
                    assert(s.subrange(i, j) == fields_json(fs));
                } else if s[j] == COMMA {
                    lemma_members_sound(s, j + 1);
                    lemma_members_bounds(s, j + 1);
                    if let Some((fs2, k)) = parse_members(s, j + 1) {
                        let fs = seq![f] + fs2;
                        assert(fs[0] == f);
                        assert(fs.drop_first() =~= fs2);
                        assert(fields_json(fs) =~= field_json(f) + seq![COMMA] + fields_json(
                            fs2,
                        ));
                        assert(s.subrange(j, j + 1) =~= seq![COMMA]);
                        assert(s.subrange(i, k - 1) =~= s.subrange(i, j) + s.subrange(j, j + 1)
                            + s.subrange(j + 1, k - 1));
                        assert(s.subrange(i, k - 1) == fields_json(fs));
                    }
                }
            }
        }
    }
}

/// A successful entry parse read exactly the encoding of its result.
pub proof fn lemma_entry_sound(s: Seq<u8>, i: int)
    ensures
        parse_entry(s, i) matches Some(r) ==> s.subrange(i, r.1) == entry_json(r.0),
{
    if 0 <= i < s.len() && s[i] == LBRACE {
        if i + 1 < s.len() && s[i + 1] == RBRACE {
            let e = EntryModel { fields: seq![] };
            assert(fields_json(e.fields) =~= Seq::<u8>::empty());
            assert(s.subrange(i, i + 2) =~= entry_json(e));
        } else {
            lemma_members_sound(s, i + 1);
            lemma_members_bounds(s, i + 1);
            if let Some((fs, j)) = parse_members(s, i + 1) {
                let e = EntryModel { fields: fs };
                assert(s.subrange(i, j) =~= entry_json(e));
            }
        }
    }
}

/// A successful item-list parse read exactly the encoding of its result,
/// followed by the closing bracket.
pub proof fn lemma_items_sound(s: Seq<u8>, i: int)
    ensures
        parse_items(s, i) matches Some(r) ==> {
            &&& r.0.len() >= 1
            &&& r.1 == i + entries_json(r.0).len() + 1
            &&& s.subrange(i, r.1 - 1) == entries_json(r.0)
            &&& s[r.1 - 1] == RBRACKET
        },
    decreases s.len() - i,
{
    if i >= 0 {
        lemma_entry_sound(s, i);
        lemma_entry_bounds(s, i);
        if let Some((e, j)) = parse_entry(s, i) {
            if i < j && j < s.len() {
                if s[j] == RBRACKET {
                    let es = seq![e];
                    assert(es[0] == e);
                    assert(entries_json(es) == entry_json(e));
                    assert(s.subrange(i, j) == entries_json(es));
                } else if s[j] == COMMA {
                    lemma_items_sound(s, j + 1);
                    lemma_items_bounds(s, j + 1);
                    if let Some((es2, k)) = parse_items(s, j + 1) {
                        let es = seq![e] + es2;
                        assert(es[0] == e);
                        assert(es.drop_first() =~= es2);
                        assert(entries_json(es) =~= entry_json(e) + seq![COMMA] + entries_json(
                            es2,
                        ));
                        assert(s.subrange(j, j + 1) =~= seq![COMMA]);
                        assert(s.subrange(i, k - 1) =~= s.subrange(i, j) + s.subrange(j, j + 1)
                            + s.subrange(j + 1, k - 1));
                        assert(s.subrange(i, k - 1) == entries_json(es));
                    }
                }
            }
        }
    }
}

/// A successful array parse read exactly the encoding of its result.
pub proof fn lemma_array_sound(s: Seq<u8>, i: int)
    ensures
        parse_array(s, i) matches Some(r) ==> s.subrange(i, r.1) == array_json(r.0),
{
    if 0 <= i < s.len() && s[i] == LBRACKET {
        if i + 1 < s.len() && s[i + 1] == RBRACKET {
            assert(entries_json(Seq::<EntryModel>::empty()) =~= Seq::<u8>::empty());
            assert(s.subrange(i, i + 2) =~= array_json(Seq::<EntryModel>::empty()));
        } else {
            lemma_items_sound(s, i + 1);
            lemma_items_bounds(s, i + 1);
            if let Some((es, j)) = parse_items(s, i + 1) {
                assert(s.subrange(i, j) =~= array_json(es));
            }
        }
    }
}

/// The parser accepts only canonical encodings: whatever document a parse
/// returns, the input was exactly that document's encoding.
#[verifier::rlimit(100)]
pub proof fn lemma_document_sound(s: Seq<u8>)
    ensures
        parse_document_spec(s) matches Some(d) ==> s == json_of(d),
{
    let h0 = seq![LBRACE] + key_header(key_passwords());
    let h1 = seq![COMMA] + key_header(key_identities());
    let h2 = seq![COMMA] + key_header(key_cards());
    if bytes_at(s, 0, h0) {
        lemma_array_sound(s, h0.len() as int);
        lemma_array_bounds(s, h0.len() as int);
        if let Some((ps, i1)) = parse_array(s, h0.len() as int) {
            if bytes_at(s, i1, h1) {
                lemma_array_sound(s, i1 + h1.len());
                lemma_array_bounds(s, i1 + h1.len());
                if let Some((ids, i2)) = parse_array(s, i1 + h1.len()) {
                    if bytes_at(s, i2, h2) {
                        lemma_array_sound(s, i2 + h2.len());
                        lemma_array_bounds(s, i2 + h2.len());
                        if let Some((cs, i3)) = parse_array(s, i2 + h2.len()) {
                            if i3 + 1 == s.len() && s[i3] == RBRACE {
                                let d = DocumentModel {
                                    passwords: ps,
                                    identities: ids,
                                    cards: cs,
                                };
                                let a0 = h0.len() as int;
                                assert(s.subrange(0, a0) == h0);
                                assert(s.subrange(i1, i1 + h1.len()) == h1);
                                assert(s.subrange(i2, i2 + h2.len()) == h2);
                                assert(s.subrange(i3, i3 + 1) =~= seq![RBRACE]);
                                assert(s =~= s.subrange(0, a0) + s.subrange(a0, i1)
                                    + s.subrange(i1, i1 + h1.len())
                                    + s.subrange(i1 + h1.len(), i2)
                                    + s.subrange(i2, i2 + h2.len())
                                    + s.subrange(i2 + h2.len(), i3)
                                    + s.subrange(i3, i3 + 1));
                                assert(s == h0 + array_json(ps) + h1 + array_json(ids) + h2
                                    + array_json(cs) + seq![RBRACE]);
                                assert(s =~= json_of(d));
                            }
                        }
                    }
                }
            }
        }
    }
}

/// Prefixes recovered bytes onto a string-body parse result.
pub open spec fn prepend_bytes(p: Seq<u8>, r: Option<(Seq<u8>, int)>) -> Option<(Seq<u8>, int)> {
    match r {
        Some((t, j)) => Some((p + t, j)),
        None => None,
    }
}

/// Prefixes recovered fields onto a member-list parse result.
pub open spec fn prepend_fields(p: Seq<FieldModel>, r: Option<(Seq<FieldModel>, int)>) -> Option<
    (Seq<FieldModel>, int),
> {
    match r {
        Some((t, j)) => Some((p + t, j)),
        None => None,
    }
}

/// Prefixes recovered entries onto an item-list parse result.
pub open spec fn prepend_entries(p: Seq<EntryModel>, r: Option<(Seq<EntryModel>, int)>) -> Option<
    (Seq<EntryModel>, int),
> {
    match r {
        Some((t, j)) => Some((p + t, j)),
        None => None,
    }
}

/// Reads a string body starting just past the opening quote.
fn scan_string_body(s: &Vec<u8>, start: usize) -> (r: Option<(Vec<u8>, usize)>)
    ensures
        r matches Some(t) ==> parse_string_body(s@, start as int) == Some((t.0@, t.1 as int)),
        r is None ==> parse_string_body(s@, start as int) is None,
{
    if start >= s.len() {
        return None;
    }
    let mut acc: Vec<u8> = Vec::new();
    let mut k: usize = start;
    loop
        invariant
            start <= k <= s.len(),
            parse_string_body(s@, start as int) == prepend_bytes(
                acc@,
                parse_string_body(s@, k as int),
            ),
        decreases s@.len() - k,
    {
        if k == s.len() {
            return None;
        }
        let b = s[k];
        if b == QUOTE {
            proof {
                assert(parse_string_body(s@, k as int) == Some((Seq::<u8>::empty(), k + 1)));
                assert(acc@ + Seq::<u8>::empty() =~= acc@);
            }
            return Some((acc, k + 1));
        }
        if b == BACKSLASH {
            if k + 1 < s.len() && (s[k + 1] == QUOTE || s[k + 1] == BACKSLASH) {
                let c = s[k + 1];
                let ghost acc0 = acc@;
                acc.push(c);
                proof {
                    let inner = parse_string_body(s@, k + 2 as int);
                    assert(parse_string_body(s@, k as int) == prepend_bytes(seq![c], inner));
                    match inner {
                        Some((t, j)) => {
                            assert(acc0 + (seq![c] + t) =~= (acc0 + seq![c]) + t);
                        },
                        None => {},
                    }
                }
                k = k + 2;
            } else {
                return None;
            }
        } else {
            let ghost acc0 = acc@;
            acc.push(b);
            proof {
                let inner = parse_string_body(s@, k + 1 as int);
                assert(parse_string_body(s@, k as int) == prepend_bytes(seq![b], inner));
                match inner {
                    Some((t, j)) => {
                        assert(acc0 + (seq![b] + t) =~= (acc0 + seq![b]) + t);
                    },
                    None => {},
                }
            }
            k = k + 1;
        }
    }
}

/// Reads one field value.
fn scan_value(s: &Vec<u8>, i: usize) -> (r: Option<(FieldValue, usize)>)
    ensures
        r matches Some(t) ==> parse_value(s@, i as int) == Some((t.0@, t.1 as int)),
        r is None ==> parse_value(s@, i as int) is None,
{
    broadcast use vstd::utf8::encode_utf8_valid_utf8;
    broadcast use vstd::utf8::encode_utf8_decode_utf8;

    if i >= s.len() {
        return None;
    }
    let b = s[i];
    if b == QUOTE {
        match scan_string_body(s, i + 1) {
            Some((bytes, j)) => {
                let ghost bv = bytes@;
                match crate::encoding::bytes_to_string(bytes) {
                    Some(t) => {
                        proof {
                            assert(valid_utf8(bv));
                            assert(decode_utf8(bv) == t@);
                        }
                        Some((FieldValue::Text(t), j))
                    },
                    None => {
                        proof {
                            assert(!valid_utf8(bv));
                        }
                        None
                    },
                }
            },
            None => None,
        }
    } else if b == 0x74 {
        if s.len() - i > 3 && s[i + 1] == 0x72 && s[i + 2] == 0x75 && s[i + 3] == 0x65 {
            proof {
                assert(s@.subrange(i as int, i + 4 as int) =~= lit_true());
            }
            Some((FieldValue::Flag(true), i + 4))
        } else {
            proof {
                if bytes_at(s@, i as int, lit_true()) {
                    assert(s@.subrange(i as int, i + 4 as int)[1] == s@[i + 1]);
                    assert(s@.subrange(i as int, i + 4 as int)[2] == s@[i + 2]);
                    assert(s@.subrange(i as int, i + 4 as int)[3] == s@[i + 3]);
                    assert(false);
                }
            }
            None
        }
    } else if b == 0x66 {
        if s.len() - i > 4 && s[i + 1] == 0x61 && s[i + 2] == 0x6c && s[i + 3] == 0x73 && s[i + 4]
            == 0x65 {
            proof {
                assert(s@.subrange(i as int, i + 5 as int) =~= lit_false());
            }
            Some((FieldValue::Flag(false), i + 5))
        } else {
            proof {
                if bytes_at(s@, i as int, lit_false()) {
                    assert(s@.subrange(i as int, i + 5 as int)[1] == s@[i + 1]);
                    assert(s@.subrange(i as int, i + 5 as int)[2] == s@[i + 2]);
                    assert(s@.subrange(i as int, i + 5 as int)[3] == s@[i + 3]);
                    assert(s@.subrange(i as int, i + 5 as int)[4] == s@[i + 4]);
                    assert(false);
                }
            }
            None
        }
    } else {
        None
    }
}

/// Reads one field.
fn scan_field(s: &Vec<u8>, i: usize) -> (r: Option<(Field, usize)>)
    ensures
        r matches Some(t) ==> parse_field(s@, i as int) == Some((t.0@, t.1 as int)),
        r is None ==> parse_field(s@, i as int) is None,
{
    broadcast use vstd::utf8::encode_utf8_valid_utf8;
    broadcast use vstd::utf8::encode_utf8_decode_utf8;

    if i >= s.len() {
        return None;
    }
    if s[i] != QUOTE {
        return None;
    }
    match scan_string_body(s, i + 1) {
        Some((name_bytes, j)) => {
            let ghost nb = name_bytes@;
            match crate::encoding::bytes_to_string(name_bytes) {
                Some(name) => {
                    proof {
                        assert(valid_utf8(nb));
                        assert(decode_utf8(nb) == name@);
                    }
                    if j < s.len() && s[j] == COLON {
                        match scan_value(s, j + 1) {
                            Some((v, k)) => {
                                let f = Field { name, value: v };
                                proof {
                                    assert(f@ =~= FieldModel { name: decode_utf8(nb), value: v@ });
                                }
                                Some((f, k))
                            },
                            None => None,
                        }
                    } else {
                        None
                    }
                },
                None => {
                    proof {
                        assert(!valid_utf8(nb));
                    }
                    None
                },
            }
        },
        None => None,
    }
}

/// Reads a non-empty field list up to and including the closing brace.
fn scan_members(s: &Vec<u8>, i: usize) -> (r: Option<(Vec<Field>, usize)>)
    requires
        i <= s@.len(),
    ensures
        r matches Some(t) ==> parse_members(s@, i as int) == Some((
            t.0@.map_values(|f: Field| f@),
            t.1 as int,
        )),
        r is None ==> parse_members(s@, i as int) is None,
{
    let mut acc: Vec<Field> = Vec::new();
    let mut k: usize = i;
    proof {
        assert(acc@.map_values(|f: Field| f@) =~= Seq::<FieldModel>::empty());
    }
    loop
        invariant
            i <= k <= s@.len(),
            parse_members(s@, i as int) == prepend_fields(
                acc@.map_values(|f: Field| f@),
                parse_members(s@, k as int),
            ),
        decreases s@.len() - k,
    {
        match scan_field(s, k) {
            None => {
                return None;
            },
            Some((f, j)) => {
                proof {
                    lemma_field_bounds(s@, k as int);
                }
                if j >= s.len() {
                    return None;
                }
                let c = s[j];
                let ghost am = acc@.map_values(|f: Field| f@);
                if c == RBRACE {
                    acc.push(f);
                    proof {
                        assert(parse_members(s@, k as int) == Some((seq![f@], j + 1 as int)));
                        assert(acc@.map_values(|f: Field| f@) =~= am.push(f@));
                        assert(am + seq![f@] =~= am.push(f@));
                    }
                    return Some((acc, j + 1));
                } else if c == COMMA {
                    acc.push(f);
                    proof {
                        let inner = parse_members(s@, j + 1 as int);
                        assert(parse_members(s@, k as int) == prepend_fields(seq![f@], inner));
                        assert(acc@.map_values(|f: Field| f@) =~= am.push(f@));
                        match inner {
                            Some((t, m)) => {
                                assert(am + (seq![f@] + t) =~= am.push(f@) + t);
                            },
                            None => {},
                        }
                    }
                    k = j + 1;
                } else {
                    return None;
                }
            },
        }
    }
}

/// Reads one entry object.
fn scan_entry(s: &Vec<u8>, i: usize) -> (r: Option<(Entry, usize)>)
    ensures
        r matches Some(t) ==> parse_entry(s@, i as int) == Some((t.0@, t.1 as int)),
        r is None ==> parse_entry(s@, i as int) is None,
{
    if i >= s.len() {
        return None;
    }
    if s[i] != LBRACE {
        return None;
    }
    if i + 1 < s.len() && s[i + 1] == RBRACE {
        let e = Entry { fields: Vec::new() };
        proof {
            assert(e@ =~= EntryModel { fields: seq![] });
        }
        return Some((e, i + 2));
    }
    match scan_members(s, i + 1) {
        Some((fields, j)) => {
            let e = Entry { fields };
            Some((e, j))
        },
        None => None,
    }
}

/// Reads a non-empty entry list up to and including the closing bracket.
fn scan_items(s: &Vec<u8>, i: usize) -> (r: Option<(Vec<Entry>, usize)>)
    requires
        i <= s@.len(),
    ensures
        r matches Some(t) ==> parse_items(s@, i as int) == Some((
            t.0@.map_values(|e: Entry| e@),
            t.1 as int,
        )),
        r is None ==> parse_items(s@, i as int) is None,
{
    let mut acc: Vec<Entry> = Vec::new();
    let mut k: usize = i;
    proof {
        assert(acc@.map_values(|e: Entry| e@) =~= Seq::<EntryModel>::empty());
    }
    loop
        invariant
            i <= k <= s@.len(),
            parse_items(s@, i as int) == prepend_entries(
                acc@.map_values(|e: Entry| e@),
                parse_items(s@, k as int),
            ),
        decreases s@.len() - k,
    {
        match scan_entry(s, k) {
            None => {
                return None;
            },
            Some((e, j)) => {
                proof {
                    lemma_entry_bounds(s@, k as int);
                }
                if j >= s.len() {
                    return None;
                }
                let c = s[j];
                let ghost am = acc@.map_values(|e: Entry| e@);
                if c == RBRACKET {
                    acc.push(e);
                    proof {
                        assert(parse_items(s@, k as int) == Some((seq![e@], j + 1 as int)));
                        assert(acc@.map_values(|e: Entry| e@) =~= am.push(e@));
                        assert(am + seq![e@] =~= am.push(e@));
                    }
                    return Some((acc, j + 1));
                } else if c == COMMA {
                    acc.push(e);
                    proof {
                        let inner = parse_items(s@, j + 1 as int);
                        assert(parse_items(s@, k as int) == prepend_entries(seq![e@], inner));
                        assert(acc@.map_values(|e: Entry| e@) =~= am.push(e@));
                        match inner {
                            Some((t, m)) => {
                                assert(am + (seq![e@] + t) =~= am.push(e@) + t);
                            },
                            None => {},
                        }
                    }
                    k = j + 1;
                } else {
                    return None;
                }
            },
        }
    }
}

/// Reads one collection array.
fn scan_array(s: &Vec<u8>, i: usize) -> (r: Option<(Vec<Entry>, usize)>)
    ensures
        r matches Some(t) ==> parse_array(s@, i as int) == Some((
            t.0@.map_values(|e: Entry| e@),
            t.1 as int,
        )),
        r is None ==> parse_array(s@, i as int) is None,
{
    if i >= s.len() {
        return None;
    }
    if s[i] != LBRACKET {
        return None;
    }
    if i + 1 < s.len() && s[i + 1] == RBRACKET {
        let empty: Vec<Entry> = Vec::new();
        proof {
            assert(empty@.map_values(|e: Entry| e@) =~= Seq::<EntryModel>::empty());
        }
        return Some((empty, i + 2));
    }
    scan_items(s, i + 1)
}

/// True when `pat` occurs in `s` at position `i`.
fn bytes_match(s: &Vec<u8>, i: usize, pat: &Vec<u8>) -> (r: bool)
    ensures
        r == bytes_at(s@, i as int, pat@),
{
    if i > s.len() || pat.len() > s.len() - i {
        return false;
    }
    let mut k: usize = 0;
    while k < pat.len()
        invariant
            k <= pat.len(),
            i + pat.len() <= s.len(),
            forall|m: int| 0 <= m < k ==> s@[i + m] == pat@[m],
        decreases pat.len() - k,
    {
        if s[i + k] != pat[k] {
            proof {
                if bytes_at(s@, i as int, pat@) {
                    assert(s@.subrange(i as int, i + pat@.len())[k as int] == s@[i + k]);
                }
            }
            return false;
        }
        k = k + 1;
    }
    proof {
        assert(s@.subrange(i as int, i + pat@.len()) =~= pat@);
    }
    true
}

/// The document header: opening brace, quoted key `passwords`, colon.
fn header_passwords() -> (r: Vec<u8>)
    ensures
        r@ == seq![LBRACE] + key_header(key_passwords()),
{
    let mut v: Vec<u8> = Vec::new();
    v.push(LBRACE);
    v.push(QUOTE);
    v.push(0x70);
    v.push(0x61);
    v.push(0x73);
    v.push(0x73);
    v.push(0x77);
    v.push(0x6f);
    v.push(0x72);
    v.push(0x64);
    v.push(0x73);
    v.push(QUOTE);
    v.push(COLON);
    proof {
        assert(v@ =~= seq![LBRACE] + key_header(key_passwords()));
    }
    v
}

/// The second header: comma, quoted key `identities`, colon.
fn header_identities() -> (r: Vec<u8>)
    ensures
        r@ == seq![COMMA] + key_header(key_identities()),
{
    let mut v: Vec<u8> = Vec::new();
    v.push(COMMA);
    v.push(QUOTE);
    v.push(0x69);
    v.push(0x64);
    v.push(0x65);
    v.push(0x6e);
    v.push(0x74);
    v.push(0x69);
    v.push(0x74);
    v.push(0x69);
    v.push(0x65);
    v.push(0x73);
    v.push(QUOTE);
    v.push(COLON);
    proof {
        assert(v@ =~= seq![COMMA] + key_header(key_identities()));
    }
    v
}

/// The third header: comma, quoted key `cards`, colon.
fn header_cards() -> (r: Vec<u8>)
    ensures
        r@ == seq![COMMA] + key_header(key_cards()),
{
    let mut v: Vec<u8> = Vec::new();
    v.push(COMMA);
    v.push(QUOTE);
    v.push(0x63);
    v.push(0x61);
    v.push(0x72);
    v.push(0x64);
    v.push(0x73);
    v.push(QUOTE);
    v.push(COLON);
    proof {
        assert(v@ =~= seq![COMMA] + key_header(key_cards()));
    }
    v
}

/// Parses the canonical encoding of a whole document. Returns the document
/// exactly when the bytes are a canonical encoding; in particular, parsing
/// the serializer's output always returns the serialized document.
pub fn parse_document(bytes: &Vec<u8>) -> (r: Option<Document>)
    ensures
        r matches Some(d) ==> parse_document_spec(bytes@) == Some(d@),
        r matches Some(d) ==> bytes@ == json_of(d@),
        r is None ==> parse_document_spec(bytes@) is None,
        forall|dv: DocumentModel|
            bytes@ == json_of(dv) ==> r is Some && r.unwrap()@ == dv,
{
    let h0 = header_passwords();
    let h1 = header_identities();
    let h2 = header_cards();
    let r = parse_document_inner(bytes, &h0, &h1, &h2);
    proof {
        lemma_document_sound(bytes@);
        assert forall|dv: DocumentModel| bytes@ == json_of(dv) implies r is Some && r.unwrap()@
            == dv by {
            lemma_document_complete(dv);
        }
    }
    r
}

/// The body of [`parse_document`], split out so the headers are built once.
fn parse_document_inner(bytes: &Vec<u8>, h0: &Vec<u8>, h1: &Vec<u8>, h2: &Vec<u8>) -> (r: Option<
    Document,
>)
    requires
        h0@ == seq![LBRACE] + key_header(key_passwords()),
        h1@ == seq![COMMA] + key_header(key_identities()),
        h2@ == seq![COMMA] + key_header(key_cards()),
    ensures
        r matches Some(d) ==> parse_document_spec(bytes@) == Some(d@),
        r is None ==> parse_document_spec(bytes@) is None,
{
    let total = bytes.len();
    if !bytes_match(bytes, 0, h0) {
        return None;
    }
    let i0 = h0.len();
    match scan_array(bytes, i0) {
        None => None,
        Some((passwords, i1)) => {
            proof {
                lemma_array_bounds(bytes@, i0 as int);
            }
            if !bytes_match(bytes, i1, h1) {
                return None;
            }
            proof {
                assert(i1 + h1@.len() <= total);
            }
            match scan_array(bytes, i1 + h1.len()) {
                None => None,
                Some((identities, i2)) => {
                    proof {
                        lemma_array_bounds(bytes@, i1 + h1@.len() as int);
                    }
                    if !bytes_match(bytes, i2, h2) {
                        return None;
                    }
                    proof {
                        assert(i2 + h2@.len() <= total);
                    }
                    match scan_array(bytes, i2 + h2.len()) {
                        None => None,
                        Some((cards, i3)) => {
                            proof {
                                lemma_array_bounds(bytes@, i2 + h2@.len() as int);
                            }
                            if i3 < bytes.len() && bytes[i3] == RBRACE && i3 + 1 == bytes.len() {
                                let d = Document { passwords, identities, cards };
                                Some(d)
                            } else {
                                None
                            }
                        },
                    }
                },
            }
        },
    }
}


} // verus!
