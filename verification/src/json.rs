//! JSON text, as far as the wire record needs it: strings, arrays of
//! strings, and objects whose keys are plain words.
//!
//! How a string is written, with its quotes and escapes, is left to
//! `serde_json`. What stands around the strings is written here, in the
//! compact form: no blank between tokens.

use vstd::prelude::*;

verus! {

/// The JSON string literal that `serde_json` writes for `text`.
pub uninterp spec fn json_string(text: Seq<char>) -> Seq<char>;

/// Writes `text` as a JSON string literal: builds `serde_json::Value::String`
/// from it and formats that value with `Display`, which gives the compact
/// form. The literal is a function of the text alone, and it is named, not
/// spelled out.
#[verifier::external_body]
pub(crate) fn quoted(text: &str) -> (json: String)
    ensures
        json@ == json_string(text@),
{
    serde_json::Value::from(text).to_string()
}

/// The parts in order, a comma between each two.
pub open spec fn joined(parts: Seq<Seq<char>>) -> Seq<char>
    decreases parts.len(),
{
    if parts.len() == 0 {
        Seq::empty()
    } else if parts.len() == 1 {
        parts[0]
    } else {
        joined(parts.drop_last()) + seq![','] + parts.last()
    }
}

/// Each text as a JSON string literal.
pub open spec fn literals(items: Seq<Seq<char>>) -> Seq<Seq<char>> {
    items.map_values(|text: Seq<char>| json_string(text))
}

/// The JSON array of the strings `items`.
pub open spec fn array_text(items: Seq<Seq<char>>) -> Seq<char> {
    seq!['['] + joined(literals(items)) + seq![']']
}

/// One member of an object: the key in quotes, a colon, the value's text.
/// The key is written as it stands, so it must need no escape.
pub open spec fn member(key: Seq<char>, value: Seq<char>) -> Seq<char> {
    seq!['"'] + key + seq!['"', ':'] + value
}

/// Each field as a member.
pub open spec fn members(fields: Seq<(Seq<char>, Seq<char>)>) -> Seq<Seq<char>> {
    fields.map_values(|field: (Seq<char>, Seq<char>)| member(field.0, field.1))
}

/// The JSON object with the members `fields`, each a key and the text of
/// its value, in the order given.
pub open spec fn object_text(fields: Seq<(Seq<char>, Seq<char>)>) -> Seq<char> {
    seq!['{'] + joined(members(fields)) + seq!['}']
}

/// What a list of pairs of strings holds.
pub open spec fn pairs_view(fields: Seq<(String, String)>) -> Seq<(Seq<char>, Seq<char>)> {
    fields.map_values(|field: (String, String)| (field.0@, field.1@))
}

/// One more part goes behind a comma, unless it is the first.
pub proof fn lemma_joined_push(parts: Seq<Seq<char>>, part: Seq<char>)
    ensures
        joined(parts.push(part)) == if parts.len() == 0 {
            part
        } else {
            joined(parts) + seq![','] + part
        },
{
    let longer = parts.push(part);
    assert(longer.drop_last() =~= parts);
    assert(longer.last() == part);
}

/// Appends `part` to `text`, behind a comma where `text` already holds
/// `count` parts and `count` is not zero.
fn push_part(text: &mut String, count: usize, part: &str)
    ensures
        final(text)@ == if count == 0 {
            old(text)@ + part@
        } else {
            old(text)@ + seq![','] + part@
        },
{
    if count != 0 {
        proof {
            reveal_strlit(",");
        }
        text.append(",");
        assert(","@ =~= seq![',']);
    }
    text.append(part);
}

/// Writes the strings `items` as a JSON array.
pub fn array(items: &Vec<String>) -> (json: String)
    ensures
        json@ == array_text(items.deep_view()),
{
    proof {
        reveal_strlit("[");
        reveal_strlit("]");
    }
    let ghost all = items.deep_view();
    let mut json = String::new();
    json.append("[");
    assert("["@ =~= seq!['[']);
    assert(json@ =~= seq!['['] + joined(literals(all.take(0))));
    let mut at: usize = 0;
    while at < items.len()
        invariant
            at <= items.len(),
            all == items.deep_view(),
            json@ == seq!['['] + joined(literals(all.take(at as int))),
        decreases items.len() - at,
    {
        let literal = quoted(items[at].as_str());
        proof {
            let before = literals(all.take(at as int));
            assert(all[at as int] == items[at as int]@);
            assert(literals(all.take(at + 1)) =~= before.push(literal@));
            lemma_joined_push(before, literal@);
        }
        push_part(&mut json, at, literal.as_str());
        assert(json@ =~= seq!['['] + joined(literals(all.take(at + 1))));
        at += 1;
    }
    assert(all.take(at as int) =~= all);
    json.append("]");
    assert("]"@ =~= seq![']']);
    json
}

/// Writes one member of an object.
fn member_text(key: &str, value: &str) -> (json: String)
    ensures
        json@ == member(key@, value@),
{
    proof {
        reveal_strlit("\"");
        reveal_strlit("\":");
    }
    let mut json = String::new();
    json.append("\"");
    json.append(key);
    json.append("\":");
    json.append(value);
    assert("\""@ =~= seq!['"']);
    assert("\":"@ =~= seq!['"', ':']);
    assert(json@ =~= member(key@, value@));
    json
}

/// Writes a JSON object. Each field is a key and the JSON text of its
/// value; the members come in the order of `fields`. A key is written
/// between quotes as it stands.
pub fn object(fields: &Vec<(String, String)>) -> (json: String)
    ensures
        json@ == object_text(pairs_view(fields@)),
{
    proof {
        reveal_strlit("{");
        reveal_strlit("}");
    }
    let ghost all = pairs_view(fields@);
    let mut json = String::new();
    json.append("{");
    assert("{"@ =~= seq!['{']);
    assert(json@ =~= seq!['{'] + joined(members(all.take(0))));
    let mut at: usize = 0;
    while at < fields.len()
        invariant
            at <= fields.len(),
            all == pairs_view(fields@),
            json@ == seq!['{'] + joined(members(all.take(at as int))),
        decreases fields.len() - at,
    {
        let part = member_text(fields[at].0.as_str(), fields[at].1.as_str());
        proof {
            let before = members(all.take(at as int));
            assert(all[at as int] == (fields[at as int].0@, fields[at as int].1@));
            assert(members(all.take(at + 1)) =~= before.push(part@));
            lemma_joined_push(before, part@);
        }
        push_part(&mut json, at, part.as_str());
        assert(json@ =~= seq!['{'] + joined(members(all.take(at + 1))));
        at += 1;
    }
    assert(all.take(at as int) =~= all);
    json.append("}");
    assert("}"@ =~= seq!['}']);
    json
}

} // verus!
