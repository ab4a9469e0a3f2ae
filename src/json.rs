//! JSON text: quoting strings through serde_json and laying out objects and arrays.
use vstd::prelude::*;
use crate::text::{digit_char, push_char};

verus! {

#[verifier::external_type_specification]
#[verifier::external_body]
pub struct ExJsonValue(serde_json::Value);

#[verifier::external_type_specification]
#[verifier::external_body]
pub struct ExJsonError(serde_json::Error);


/// What `serde_json` reads as a string from a whole JSON document, if it reads one.
pub uninterp spec fn json_string_value(doc: Seq<char>) -> Option<Seq<char>>;

/// Whether `serde_json` accepts a whole text as a JSON document.
pub uninterp spec fn json_accepts(doc: Seq<char>) -> bool;

/// A string that `serde_json` writes without any escape: no quote, no backslash and no
/// control character below U+0020.
pub open spec fn plain(s: Seq<char>) -> bool {
    forall|i: int| 0 <= i < s.len() ==> #[trigger] s[i] != '"' && s[i] != '\\' && s[i] as u32 >= 32
}

/// A string between two double quotes.
pub open spec fn quoted(s: Seq<char>) -> Seq<char> {
    seq!['"'] + s + seq!['"']
}

/// A lowercase hexadecimal digit.
pub open spec fn hex_digit(d: nat) -> char {
    if d < 10 {
        digit_char(d)
    } else if d == 10 {
        'a'
    } else if d == 11 {
        'b'
    } else if d == 12 {
        'c'
    } else if d == 13 {
        'd'
    } else if d == 14 {
        'e'
    } else {
        'f'
    }
}

/// How one character is written inside a JSON string: quote and backslash behind a
/// backslash, the usual short escapes for backspace, tab, line feed, form feed and carriage
/// return, the other control characters below U+0020 as `\u00` and two lowercase hex digits,
/// and every other character as it stands.
pub open spec fn escape_char(c: char) -> Seq<char> {
    if c == '"' {
        seq!['\\', '"']
    } else if c == '\\' {
        seq!['\\', '\\']
    } else if c == '\u{8}' {
        seq!['\\', 'b']
    } else if c == '\t' {
        seq!['\\', 't']
    } else if c == '\n' {
        seq!['\\', 'n']
    } else if c == '\u{c}' {
        seq!['\\', 'f']
    } else if c == '\r' {
        seq!['\\', 'r']
    } else if (c as u32) < 32 {
        seq!['\\', 'u', '0', '0', hex_digit(c as nat / 16), hex_digit(c as nat % 16)]
    } else {
        seq![c]
    }
}

/// The characters of a string, each written as inside a JSON string.
pub open spec fn escaped(s: Seq<char>) -> Seq<char>
    decreases s.len(),
{
    if s.len() == 0 {
        Seq::empty()
    } else {
        escaped(s.drop_last()) + escape_char(s.last())
    }
}

/// The JSON string literal of a text.
pub open spec fn json_string(s: Seq<char>) -> Seq<char> {
    quoted(escaped(s))
}

/// A plain text is written without any escape: its literal is the text between quotes.
pub proof fn lemma_plain_is_quoted(s: Seq<char>)
    requires
        plain(s),
    ensures
        json_string(s) == quoted(s),
    decreases s.len(),
{
    lemma_plain_unescaped(s);
}

proof fn lemma_plain_unescaped(s: Seq<char>)
    requires
        plain(s),
    ensures
        escaped(s) == s,
    decreases s.len(),
{
    if s.len() > 0 {
        let t = s.drop_last();
        assert(plain(t)) by {
            assert forall|i: int| 0 <= i < t.len() implies #[trigger] t[i] != '"' && t[i] != '\\'
                && t[i] as u32 >= 32 by {
                assert(t[i] == s[i]);
            }
        }
        lemma_plain_unescaped(t);
        let c = s.last();
        assert(c == s[s.len() - 1]);
        assert(c as u32 >= 32);
        assert(c != '\u{8}' && c != '\t' && c != '\n' && c != '\u{c}' && c != '\r') by {
            assert('\u{8}' as u32 == 8);
            assert('\t' as u32 == 9);
            assert('\n' as u32 == 10);
            assert('\u{c}' as u32 == 12);
            assert('\r' as u32 == 13);
        }
        assert(escape_char(c) == seq![c]);
        assert(escaped(s) =~= s);
    }
}

/// Relies on `serde_json::to_string` on a `str`: the JSON string literal of the text, by its
/// escape table and its escape writer. Writing into its own buffer cannot fail.
#[verifier::external_body]
pub(crate) fn quote(s: &str) -> (r: String)
    ensures
        r@ == json_string(s@),
{
    serde_json::to_string(s).unwrap_or_default()
}

/// What stands between the first and the last character.
pub open spec fn inner(doc: Seq<char>) -> Seq<char> {
    doc.subrange(1, doc.len() - 1)
}

/// A string literal with nothing escaped in it.
pub open spec fn plain_literal(doc: Seq<char>) -> bool {
    &&& doc.len() >= 2
    &&& doc[0] == '"'
    &&& doc.last() == '"'
    &&& plain(inner(doc))
}

/// Relies on `serde_json::from_str::<String>`: the string that a JSON document holds, if the
/// document is a single string literal. A plain literal is read back as it stands, since
/// only a backslash starts an escape.
#[verifier::external_body]
pub(crate) fn unquote(doc: &str) -> (r: Option<String>)
    ensures
        r is Some <==> json_string_value(doc@) is Some,
        r is Some ==> r->0@ == json_string_value(doc@)->0,
        plain_literal(doc@) ==> r is Some && r->0@ == inner(doc@),
{
    serde_json::from_str::<String>(doc).ok()
}

/// Relies on `serde_json::from_str::<serde_json::Value>`: it reads a whole text as one JSON
/// document, or reports why it cannot.
#[verifier::external_body]
pub(crate) fn parse_document(doc: &str) -> (r: Result<serde_json::Value, serde_json::Error>)
    ensures
        r is Ok <==> json_accepts(doc@),
{
    serde_json::from_str::<serde_json::Value>(doc)
}

/// Items separated by commas.
pub open spec fn comma_joined(items: Seq<Seq<char>>) -> Seq<char>
    decreases items.len(),
{
    if items.len() == 0 {
        Seq::empty()
    } else if items.len() == 1 {
        items[0]
    } else {
        comma_joined(items.drop_last()) + seq![','] + items.last()
    }
}

/// One member of an object: the quoted key, a colon, and the JSON text of the value.
pub open spec fn member_text(member: (Seq<char>, Seq<char>)) -> Seq<char> {
    json_string(member.0) + seq![':'] + member.1
}

/// A JSON object with the given members, in order and without spaces.
pub open spec fn object_text(members: Seq<(Seq<char>, Seq<char>)>) -> Seq<char> {
    seq!['{'] + comma_joined(members.map_values(|m: (Seq<char>, Seq<char>)| member_text(m))) + seq!['}']
}

/// A JSON array with the given element texts, in order and without spaces.
pub open spec fn array_text(items: Seq<Seq<char>>) -> Seq<char> {
    seq!['['] + comma_joined(items) + seq![']']
}

/// The members of an object as keys and value texts.
pub open spec fn members_view(members: Seq<(String, String)>) -> Seq<(Seq<char>, Seq<char>)> {
    members.map_values(|m: (String, String)| (m.0@, m.1@))
}

/// The views of a list of texts.
pub open spec fn texts_view(items: Seq<String>) -> Seq<Seq<char>> {
    items.map_values(|s: String| s@)
}

proof fn lemma_joined_step(items: Seq<Seq<char>>, i: int)
    requires
        1 <= i < items.len(),
    ensures
        comma_joined(items.take(i + 1)) == comma_joined(items.take(i)) + seq![','] + items[i],
{
    assert(items.take(i + 1).drop_last() =~= items.take(i));
}

/// Writes a JSON array from the texts of its elements.
pub fn render_array(items: &Vec<String>) -> (r: String)
    ensures
        r@ == array_text(texts_view(items@)),
{
    let ghost views = texts_view(items@);
    let mut out = String::new();
    push_char(&mut out, '[');
    let mut i: usize = 0;
    while i < items.len()
        invariant
            0 <= i <= items.len(),
            views == texts_view(items@),
            out@ == seq!['['] + comma_joined(views.take(i as int)),
        decreases items.len() - i,
    {
        if i > 0 {
            push_char(&mut out, ',');
        }
        out.append(items[i].as_str());
        proof {
            if i > 0 {
                lemma_joined_step(views, i as int);
                assert(out@ =~= seq!['['] + comma_joined(views.take(i + 1)));
            } else {
                assert(views.take(1) =~= seq![views[0]]);
                assert(out@ =~= seq!['['] + comma_joined(views.take(i + 1)));
            }
        }
        i = i + 1;
    }
    push_char(&mut out, ']');
    assert(views.take(items.len() as int) =~= views);
    out
}

/// Writes a JSON object from its keys and the JSON texts of its values.
pub fn render_object(members: &Vec<(String, String)>) -> (r: String)
    ensures
        r@ == object_text(members_view(members@)),
{
    let ghost views = members_view(members@).map_values(
        |m: (Seq<char>, Seq<char>)| member_text(m),
    );
    let mut out = String::new();
    push_char(&mut out, '{');
    let mut i: usize = 0;
    while i < members.len()
        invariant
            0 <= i <= members.len(),
            views == members_view(members@).map_values(
                |m: (Seq<char>, Seq<char>)| member_text(m),
            ),
            out@ == seq!['{'] + comma_joined(views.take(i as int)),
        decreases members.len() - i,
    {
        if i > 0 {
            push_char(&mut out, ',');
        }
        let key = quote(members[i].0.as_str());
        out.append(key.as_str());
        push_char(&mut out, ':');
        out.append(members[i].1.as_str());
        proof {
            assert(views[i as int] =~= json_string(members@[i as int].0@) + seq![':']
                + members@[i as int].1@);
            if i > 0 {
                lemma_joined_step(views, i as int);
                assert(out@ =~= seq!['{'] + comma_joined(views.take(i + 1)));
            } else {
                assert(views.take(1) =~= seq![views[0]]);
                assert(out@ =~= seq!['{'] + comma_joined(views.take(i + 1)));
            }
        }
        i = i + 1;
    }
    push_char(&mut out, '}');
    assert(views.take(members.len() as int) =~= views);
    out
}

} // verus!
