//! TOML as bitplane's two state files read it, and TOML text as they write it.
//!
//! Reading goes through `toml_edit`, so a hand-edited file is read exactly as
//! TOML defines it. What comes back is a [`TomlValue`]: the tables in the
//! order their keys were written, which is the order every fan-out prints.

use vstd::prelude::*;
use toml_edit::{Item, TableLike, Value};
use crate::error::{texts, EngineError};
use crate::text::{chars_of, digit_char, owned, push_char, push_str, same_chars};

verus! {

/// A TOML value, as far as the state files look into one.
#[derive(Debug, PartialEq, Eq)]
pub enum TomlValue {
    /// A string.
    Text(String),
    /// An integer.
    Integer(i64),
    /// `true` or `false`.
    Boolean(bool),
    /// An inline array.
    Array(Vec<TomlValue>),
    /// A table, header or inline, its keys in the order they were written.
    Table(Vec<(String, TomlValue)>),
    /// A float, a date-time or an array of tables: nothing the files hold.
    Other,
}

#[verifier::external_type_specification]
#[verifier::external_body]
pub struct ExItem(Item);

/// What `toml_edit` reads from a text: the document, or its complaint.
pub uninterp spec fn toml_reading(text: Seq<char>) -> Result<TomlValue, Seq<char>>;

/// What a parsed `toml_edit` item holds.
pub uninterp spec fn item_tree(item: Item) -> TomlValue;

/// `DocumentMut::from_str`, the document handed on as its root item, and a
/// failure as `TomlError::message`. What it reads is what `toml_edit` reads,
/// named by [`toml_reading`].
#[verifier::external_body]
fn parse_document(text: &str) -> (r: Result<Item, String>)
    ensures
        match (r, toml_reading(text@)) {
            (Ok(item), Ok(tree)) => item_tree(item) == tree,
            (Err(message), Err(complaint)) => message@ == complaint,
            _ => false,
        },
{
    match text.parse::<toml_edit::DocumentMut>() {
        Ok(document) => Ok(document.into_item()),
        Err(err) => Err(err.message().to_owned()),
    }
}

/// An item turned into a [`TomlValue`], variant for variant: strings,
/// integers and booleans by `value`, arrays and tables (`as_table_like`, so
/// header and inline alike) by `iter`, in their own order; anything else is
/// `Other`.
#[verifier::external_body]
fn tree_of(item: &Item) -> (v: TomlValue)
    ensures
        v == item_tree(*item),
{
    match item.as_value() {
        Some(Value::String(s)) => TomlValue::Text(s.value().to_owned()),
        Some(Value::Integer(n)) => TomlValue::Integer(*n.value()),
        Some(Value::Boolean(b)) => TomlValue::Boolean(*b.value()),
        Some(Value::Array(a)) => TomlValue::Array(a.iter().map(|v| tree_of(&v.clone().into())).collect()),
        _ => match item.as_table_like() {
            Some(t) => TomlValue::Table(t.iter().map(|(k, i)| (k.to_owned(), tree_of(i))).collect()),
            None => TomlValue::Other,
        },
    }
}

/// Reads a TOML document: its root table, or why it is not TOML.
pub fn read_toml(text: &str) -> (r: Result<TomlValue, String>)
    ensures
        match (r, toml_reading(text@)) {
            (Ok(v), Ok(tree)) => v == tree,
            (Err(message), Err(complaint)) => message@ == complaint,
            _ => false,
        },
{
    match parse_document(text) {
        Ok(item) => Ok(tree_of(&item)),
        Err(message) => Err(message),
    }
}

/// The value of the first entry called `key`.
pub open spec fn entry(entries: Seq<(String, TomlValue)>, key: Seq<char>) -> Option<TomlValue>
    decreases entries.len(),
{
    if entries.len() == 0 {
        None
    } else if entries[0].0@ == key {
        Some(entries[0].1)
    } else {
        entry(entries.drop_first(), key)
    }
}

/// The value stored under `key`, where there is one.
pub fn lookup<'a>(entries: &'a Vec<(String, TomlValue)>, key: &str) -> (r: Option<&'a TomlValue>)
    ensures
        match r {
            Some(v) => entry(entries@, key@) == Some(*v),
            None => entry(entries@, key@) is None,
        },
{
    let wanted = chars_of(key);
    let mut i: usize = 0;
    assert(entries@.subrange(0, entries@.len() as int) =~= entries@);
    while i < entries.len()
        invariant
            i <= entries@.len(),
            wanted@ == key@,
            entry(entries@, key@) == entry(entries@.subrange(i as int, entries@.len() as int), key@),
        decreases entries.len() - i,
    {
        let ghost rest = entries@.subrange(i as int, entries@.len() as int);
        assert(rest[0] == entries@[i as int]);
        let name = chars_of(entries[i].0.as_str());
        if same_chars(name.as_slice(), wanted.as_slice()) {
            return Some(&entries[i].1);
        }
        assert(rest.drop_first() =~= entries@.subrange(i as int + 1, entries@.len() as int));
        i = i + 1;
    }
    None
}

/// Whether `key` is one of `legal`.
pub open spec fn is_one_of(key: Seq<char>, legal: Seq<Seq<char>>) -> bool {
    exists|i: int| 0 <= i < legal.len() && legal[i] == key
}

/// The first key of `entries` that is not one of `legal`.
pub open spec fn first_stranger(entries: Seq<(String, TomlValue)>, legal: Seq<Seq<char>>) -> Option<Seq<char>>
    decreases entries.len(),
{
    if entries.len() == 0 {
        None
    } else if !is_one_of(entries[0].0@, legal) {
        Some(entries[0].0@)
    } else {
        first_stranger(entries.drop_first(), legal)
    }
}

fn one_of(key: &str, legal: &[&str]) -> (r: bool)
    ensures
        r == is_one_of(key@, key_names(legal@)),
{
    let k = chars_of(key);
    let ghost names = key_names(legal@);
    let mut i: usize = 0;
    while i < legal.len()
        invariant
            i <= legal@.len(),
            k@ == key@,
            names == key_names(legal@),
            forall|j: int| 0 <= j < i ==> names[j] != key@,
        decreases legal.len() - i,
    {
        let l = chars_of(legal[i]);
        if same_chars(k.as_slice(), l.as_slice()) {
            assert(names[i as int] == key@);
            return true;
        }
        i = i + 1;
    }
    false
}

/// The first key of `entries` that is not one of `legal`, where there is one.
pub fn stranger<'a>(entries: &'a Vec<(String, TomlValue)>, legal: &[&str]) -> (r: Option<&'a String>)
    ensures
        match r {
            Some(k) => first_stranger(entries@, key_names(legal@)) == Some(k@),
            None => first_stranger(entries@, key_names(legal@)) is None,
        },
{
    let ghost names = key_names(legal@);
    let mut i: usize = 0;
    assert(entries@.subrange(0, entries@.len() as int) =~= entries@);
    while i < entries.len()
        invariant
            i <= entries@.len(),
            names == key_names(legal@),
            first_stranger(entries@, names) == first_stranger(
                entries@.subrange(i as int, entries@.len() as int),
                names,
            ),
        decreases entries.len() - i,
    {
        let ghost rest = entries@.subrange(i as int, entries@.len() as int);
        assert(rest[0] == entries@[i as int]);
        if !one_of(entries[i].0.as_str(), legal) {
            return Some(&entries[i].0);
        }
        assert(rest.drop_first() =~= entries@.subrange(i as int + 1, entries@.len() as int));
        i = i + 1;
    }
    None
}

/// The text a TOML string holds; nothing for any other value.
pub open spec fn text_of(v: TomlValue) -> Seq<char> {
    match v {
        TomlValue::Text(s) => s@,
        _ => Seq::empty(),
    }
}

/// The views of a list of keys.
pub open spec fn key_names(legal: Seq<&str>) -> Seq<Seq<char>> {
    legal.map_values(|l: &str| l@)
}

/// A `parse_error` for the file at `path`, saying `message`, with `legal` as
/// the keys its remedy lists.
pub open spec fn is_parse_failure(e: EngineError, path: Seq<char>, message: Seq<char>, legal: Seq<Seq<char>>) -> bool {
    e matches EngineError::ParseError { path: p, message: m, legal_keys: k } && p@ == path && m@ == message
        && texts(k@) == legal
}

/// The failure of a state file at `path` that did not read.
pub fn parse_failure(path: &str, message: String, legal: &[&str]) -> (e: EngineError)
    ensures
        is_parse_failure(e, path@, message@, key_names(legal@)),
{
    let mut keys: Vec<String> = Vec::new();
    let mut i: usize = 0;
    while i < legal.len()
        invariant
            i <= legal@.len(),
            keys@.len() == i,
            texts(keys@) == key_names(legal@).subrange(0, i as int),
        decreases legal.len() - i,
    {
        let k = owned(legal[i]);
        let ghost before = keys@;
        keys.push(k);
        assert(keys@[i as int]@ == key_names(legal@)[i as int]);
        assert(forall|j: int| 0 <= j < i ==> keys@[j] == before[j]);
        i = i + 1;
        assert(texts(keys@) =~= key_names(legal@).subrange(0, i as int));
    }
    assert(key_names(legal@).subrange(0, legal@.len() as int) =~= key_names(legal@));
    EngineError::ParseError { path: owned(path), message, legal_keys: keys }
}

/// How a TOML basic string spells one character.
pub open spec fn escaped(c: char) -> Seq<char> {
    if c == '"' {
        "\\\""@
    } else if c == '\\' {
        "\\\\"@
    } else if c == '\n' {
        "\\n"@
    } else if c == '\t' {
        "\\t"@
    } else if c == '\r' {
        "\\r"@
    } else if (c as u32) < 0x20 || c as u32 == 0x7f {
        "\\u00"@ + seq![hex_digit((c as u32 / 16) as nat), hex_digit((c as u32 % 16) as nat)]
    } else {
        seq![c]
    }
}

/// A lowercase hexadecimal digit.
pub open spec fn hex_digit(d: nat) -> char {
    if d < 10 {
        digit_char(d)
    } else if d == 10 {
        'a'
    } else if d == 11 {
        'b'
    } else if d == 12 {
        'c'
    } else if d == 13 {
        'd'
    } else if d == 14 {
        'e'
    } else {
        'f'
    }
}

/// Every character of `s`, escaped.
pub open spec fn escaped_all(s: Seq<char>) -> Seq<char>
    decreases s.len(),
{
    if s.len() == 0 {
        Seq::empty()
    } else {
        escaped_all(s.drop_last()) + escaped(s.last())
    }
}

/// `s` as a TOML basic string: quoted, with `"`, `\` and the control
/// characters escaped and everything else as it is.
pub open spec fn toml_quoted(s: Seq<char>) -> Seq<char> {
    seq!['"'] + escaped_all(s) + seq!['"']
}

fn push_hex(out: &mut String, d: u32)
    requires
        d < 16,
    ensures
        final(out)@ == old(out)@.push(hex_digit(d as nat)),
{
    let c: char = match d {
        0 => '0',
        1 => '1',
        2 => '2',
        3 => '3',
        4 => '4',
        5 => '5',
        6 => '6',
        7 => '7',
        8 => '8',
        9 => '9',
        10 => 'a',
        11 => 'b',
        12 => 'c',
        13 => 'd',
        14 => 'e',
        _ => 'f',
    };
    push_char(out, c);
}

fn push_escaped(out: &mut String, c: char)
    ensures
        final(out)@ == old(out)@ + escaped(c),
{
    if c == '"' {
        push_str(out, "\\\"");
    } else if c == '\\' {
        push_str(out, "\\\\");
    } else if c == '\n' {
        push_str(out, "\\n");
    } else if c == '\t' {
        push_str(out, "\\t");
    } else if c == '\r' {
        push_str(out, "\\r");
    } else if (c as u32) < 0x20 || c as u32 == 0x7f {
        let u = c as u32;
        push_str(out, "\\u00");
        let ghost mid = out@;
        push_hex(out, u / 16);
        push_hex(out, u % 16);
        assert(out@ =~= mid + seq![hex_digit((u / 16) as nat), hex_digit((u % 16) as nat)]);
    } else {
        push_char(out, c);
        assert(seq![c] =~= escaped(c));
    }
}

/// `s` written as a TOML basic string, so that reading the file back gives
/// `s` again whatever characters it holds.
pub fn quoted(s: &str) -> (r: String)
    ensures
        r@ == toml_quoted(s@),
{
    let v = chars_of(s);
    let mut out = String::new();
    push_char(&mut out, '"');
    let mut i: usize = 0;
    while i < v.len()
        invariant
            i <= v@.len(),
            out@ == seq!['"'] + escaped_all(v@.subrange(0, i as int)),
        decreases v.len() - i,
    {
        let ghost before = out@;
        push_escaped(&mut out, v[i]);
        assert(v@.subrange(0, i as int + 1).drop_last() =~= v@.subrange(0, i as int));
        i = i + 1;
        assert(out@ =~= seq!['"'] + escaped_all(v@.subrange(0, i as int)));
    }
    assert(v@.subrange(0, v@.len() as int) =~= s@);
    push_char(&mut out, '"');
    out
}

} // verus!
