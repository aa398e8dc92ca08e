//! Texts in which values are stored: hexadecimal digests and JSON.

use vstd::prelude::*;

use crate::decimal::{digits_ascii, put_digits};
use crate::digest::{put_byte, put_bytes, utf8};
use crate::ordering::{byte_rank, rank_precedes};

verus! {

/// The lower-case digit of a value below sixteen.
pub open spec fn hex_digit(value: int) -> u8 {
    if value < 10 {
        (48 + value) as u8
    } else {
        (87 + value) as u8
    }
}

/// Two digits for each byte, the high one first.
pub open spec fn hex_ascii(bytes: Seq<u8>) -> Seq<u8> {
    Seq::new(
        2 * bytes.len(),
        |i: int|
            if i % 2 == 0 {
                hex_digit(bytes[i / 2] as int / 16)
            } else {
                hex_digit(bytes[i / 2] as int % 16)
            },
    )
}

/// The value of a digit of either case, if it is one.
pub open spec fn hex_value(digit: u8) -> Option<int> {
    if 48 <= digit <= 57 {
        Some(digit - 48)
    } else if 97 <= digit <= 102 {
        Some(digit - 87)
    } else if 65 <= digit <= 70 {
        Some(digit - 55)
    } else {
        None
    }
}

/// The text is made of pairs of digits.
pub open spec fn is_hex(text: Seq<u8>) -> bool {
    text.len() % 2 == 0 && forall|i: int| 0 <= i < text.len() ==> hex_value(#[trigger] text[i]) is Some
}

/// The bytes that pairs of digits stand for.
pub open spec fn hex_bytes(text: Seq<u8>) -> Seq<u8> {
    Seq::new(
        text.len() / 2,
        |i: int| (hex_value(text[2 * i])->Some_0 * 16 + hex_value(text[2 * i + 1])->Some_0) as u8,
    )
}

/// Calls `hex::encode`: each byte as two lower-case digits, the high one first.
#[verifier::external_body]
pub(crate) fn hex_text(bytes: &[u8]) -> (text: String)
    ensures
        utf8(text@) == hex_ascii(bytes@),
{
    hex::encode(bytes)
}

/// Calls `hex::decode`: pairs of digits of either case, the high one first, and nothing else.
#[verifier::external_body]
pub(crate) fn hex_decoded(text: &str) -> (bytes: Option<Vec<u8>>)
    ensures
        bytes is Some <==> is_hex(utf8(text@)),
        bytes is Some ==> bytes->Some_0@ == hex_bytes(utf8(text@)),
{
    hex::decode(text).ok()
}

/// A digest reads back from its hexadecimal text.
pub proof fn lemma_hex_reads_back(bytes: Seq<u8>)
    ensures
        is_hex(hex_ascii(bytes)),
        hex_bytes(hex_ascii(bytes)) == bytes,
{
    let text = hex_ascii(bytes);
    assert forall|i: int| 0 <= i < text.len() implies hex_value(#[trigger] text[i]) is Some by {
        let high = bytes[i / 2] as int / 16;
        let low = bytes[i / 2] as int % 16;
        assert(0 <= high < 16 && 0 <= low < 16);
    }
    assert forall|i: int| 0 <= i < bytes.len() implies #[trigger] hex_bytes(text)[i]
        == bytes[i] by {
        assert((2 * i) / 2 == i && (2 * i) % 2 == 0);
        assert((2 * i + 1) / 2 == i && (2 * i + 1) % 2 == 1);
        let high = bytes[i] as int / 16;
        let low = bytes[i] as int % 16;
        assert(text[2 * i] == hex_digit(high));
        assert(text[2 * i + 1] == hex_digit(low));
        assert(bytes[i] == high * 16 + low);
    }
    assert(hex_bytes(text) =~= bytes);
}

/// What a JSON text holds, read in each of the ways in which a datum can be stored.
#[derive(Debug)]
pub struct DecodedJson {
    pub text: Option<String>,
    pub integer: Option<i64>,
    pub boolean: Option<bool>,
    pub number_bits: Option<u64>,
    /// The entries of an object, in the order of their keys, with the values that are texts.
    pub entries: Option<Vec<(String, Option<String>)>>,
}

/// The contents of [`DecodedJson`].
pub struct JsonView {
    pub text: Option<Seq<char>>,
    pub integer: Option<i64>,
    pub boolean: Option<bool>,
    pub number_bits: Option<u64>,
    pub entries: Option<Seq<(Seq<char>, Option<Seq<char>>)>>,
}

pub open spec fn text_view(text: Option<String>) -> Option<Seq<char>> {
    match text {
        Some(text) => Some(text@),
        None => None,
    }
}

pub open spec fn entry_views(entries: Seq<(String, Option<String>)>) -> Seq<
    (Seq<char>, Option<Seq<char>>),
> {
    Seq::new(entries.len(), |i: int| (entries[i].0@, text_view(entries[i].1)))
}

impl View for DecodedJson {
    type V = JsonView;

    open spec fn view(&self) -> JsonView {
        JsonView {
            text: text_view(self.text),
            integer: self.integer,
            boolean: self.boolean,
            number_bits: self.number_bits,
            entries: match self.entries {
                Some(entries) => Some(entry_views(entries@)),
                None => None,
            },
        }
    }
}

/// What `serde_json::from_str` reads from a text as a `serde_json::Value`, if it reads one.
pub uninterp spec fn json_decoded(text: Seq<char>) -> Option<JsonView>;

/// Calls `serde_json::from_str` for a `serde_json::Value`, and reads the value with `as_str`,
/// `as_i64`, `as_bool`, `as_f64` and `as_object`. What a given text holds is not stated.
#[verifier::external_body]
pub(crate) fn decode_json(text: &str) -> (decoded: Option<DecodedJson>)
    ensures
        match decoded {
            Some(value) => json_decoded(text@) == Some(value@),
            None => json_decoded(text@) is None,
        },
{
    let value: serde_json::Value = serde_json::from_str(text).ok()?;
    let texted = |item: &serde_json::Value| item.as_str().map(str::to_owned);
    Some(DecodedJson {
        text: texted(&value),
        integer: value.as_i64(),
        boolean: value.as_bool(),
        number_bits: value.as_f64().map(|number| number.to_bits()),
        entries: value.as_object().map(|entries| {
            entries.iter().map(|(key, item)| (key.clone(), texted(item))).collect()
        }),
    })
}

/// The text that `serde_json::to_string` gives for what `serde_json::from_str` reads.
pub uninterp spec fn json_recoded(text: Seq<char>) -> Option<Seq<char>>;

/// Calls `serde_json::from_str` for a `serde_json::Value`, then `serde_json::to_string`. The two
/// together are a function of the text; which text they give back is not stated.
#[verifier::external_body]
fn recode_json(text: &str) -> (recoded: Option<String>)
    ensures
        text_view(recoded) == json_recoded(text@),
{
    let value: serde_json::Value = serde_json::from_str(text).ok()?;
    serde_json::to_string(&value).ok()
}

/// The text is what its own value is written as.
pub open spec fn is_canonical_json(text: Seq<char>) -> bool {
    json_recoded(text) == Some(text)
}

/// Whether a text is what its own value is written as.
pub fn canonical_json(text: &str) -> (answer: bool)
    ensures
        answer == is_canonical_json(text@),
{
    let recoded = recode_json(text);
    is_recoded_as_itself(text, &recoded)
}

/// Whether a text was written back as itself.
pub fn is_recoded_as_itself(text: &str, recoded: &Option<String>) -> (answer: bool)
    ensures
        answer == (text_view(*recoded) == Some(text@)),
{
    match recoded {
        Some(recoded) => crate::registry::same_text(recoded.as_str(), text),
        None => false,
    }
}

/// The lower-case hexadecimal digit of a value below sixteen.
pub open spec fn hex_char(value: int) -> char {
    hex_digit(value) as char
}

/// A character as it stands inside a JSON text.
pub open spec fn json_escaped(c: char) -> Seq<char> {
    if c == '"' || c == '\\' {
        seq!['\\', c]
    } else if c == '\u{8}' {
        seq!['\\', 'b']
    } else if c == '\t' {
        seq!['\\', 't']
    } else if c == '\n' {
        seq!['\\', 'n']
    } else if c == '\u{c}' {
        seq!['\\', 'f']
    } else if c == '\r' {
        seq!['\\', 'r']
    } else if (c as int) < 32 {
        seq!['\\', 'u', '0', '0', hex_char(c as int / 16), hex_char(c as int % 16)]
    } else {
        seq![c]
    }
}

/// Characters as they stand inside a JSON text, one behind the other.
pub open spec fn json_content(text: Seq<char>) -> Seq<char>
    decreases text.len(),
{
    if text.len() == 0 {
        Seq::empty()
    } else {
        json_content(text.drop_last()) + json_escaped(text.last())
    }
}

/// The JSON text of a text: quotes, backslashes and control characters are escaped.
pub open spec fn json_quoted(text: Seq<char>) -> Seq<char> {
    seq!['"'] + json_content(text) + seq!['"']
}

/// What a JSON text holds where it is a text.
pub open spec fn text_json(text: Seq<char>) -> JsonView {
    JsonView {
        text: Some(text),
        integer: None,
        boolean: None,
        number_bits: None,
        entries: None,
    }
}

/// Calls `serde_json::Value::from` on a text, and writes the value with its `Display`: the text
/// between quotes, with quotes, backslashes and control characters escaped. `serde_json::from_str`
/// reads the text back, and writes it in the same way again.
#[verifier::external_body]
pub(crate) fn quoted_json(text: &str) -> (quoted: String)
    ensures
        quoted@ == json_quoted(text@),
        json_decoded(quoted@) == Some(text_json(text@)),
        is_canonical_json(quoted@),
{
    serde_json::Value::from(text).to_string()
}

/// Calls `serde_json::Value::from` on a whole number, and writes the value with its `Display`: its
/// decimal digits, behind a minus sign where it is negative. `serde_json::from_str` reads the
/// number back, and writes it in the same way again. The floating-point value that it also reads
/// is not stated.
#[verifier::external_body]
pub(crate) fn integer_json(value: i64) -> (text: String)
    ensures
        utf8(text@) == integer_ascii(value as int),
        json_decoded(text@) is Some,
        json_decoded(text@)->Some_0.integer == Some(value),
        json_decoded(text@)->Some_0.entries is None,
        is_canonical_json(text@),
{
    serde_json::Value::from(value).to_string()
}

/// Calls `serde_json::Value::from` on a truth value, and writes the value with its `Display`: the
/// word for it. `serde_json::from_str` reads the value back, and writes it in the same way again.
#[verifier::external_body]
pub(crate) fn boolean_json(value: bool) -> (text: String)
    ensures
        text@ == if value {
            "true"@
        } else {
            "false"@
        },
        json_decoded(text@) is Some,
        json_decoded(text@)->Some_0.boolean == Some(value),
        json_decoded(text@)->Some_0.entries is None,
        is_canonical_json(text@),
{
    serde_json::Value::from(value).to_string()
}

/// The JSON object of texts under texts, as `serde_json::Map` writes it.
pub uninterp spec fn json_object(entries: Seq<(Seq<char>, Seq<char>)>) -> Seq<char>;

pub open spec fn pair_views(entries: Seq<(String, String)>) -> Seq<(Seq<char>, Seq<char>)> {
    Seq::new(entries.len(), |i: int| (entries[i].0@, entries[i].1@))
}

/// One of the given entries.
pub open spec fn is_given(
    entry: (Seq<char>, Option<Seq<char>>),
    entries: Seq<(Seq<char>, Seq<char>)>,
) -> bool {
    exists|i: int| 0 <= i < entries.len() && entry == ((#[trigger] entries[i]).0, Some(entries[i].1))
}

/// What was read is an object of given entries, which misses none where there is one.
pub open spec fn holds_entries(
    decoded: Option<JsonView>,
    entries: Seq<(Seq<char>, Seq<char>)>,
) -> bool {
    &&& decoded is Some
    &&& decoded->Some_0.entries is Some
    &&& decoded->Some_0.entries->Some_0.len() <= entries.len()
    &&& entries.len() > 0 ==> decoded->Some_0.entries->Some_0.len() > 0
    &&& forall|i: int|
        0 <= i < decoded->Some_0.entries->Some_0.len() ==> is_given(
            #[trigger] decoded->Some_0.entries->Some_0[i],
            entries,
        )
}

/// No two entries share a key.
pub open spec fn keys_differ(entries: Seq<(Seq<char>, Seq<char>)>) -> bool {
    forall|i: int, j: int|
        0 <= i < j < entries.len() ==> (#[trigger] entries[i]).0 != (#[trigger] entries[j]).0
}

/// Entries in the order of their keys with one more.
pub open spec fn with_entry(
    sorted: Seq<(Seq<char>, Seq<char>)>,
    entry: (Seq<char>, Seq<char>),
) -> Seq<(Seq<char>, Seq<char>)>
    decreases sorted.len(),
{
    if sorted.len() == 0 || !rank_precedes(
        byte_rank(utf8(entry.0)),
        byte_rank(utf8(sorted.last().0)),
    ) {
        sorted.push(entry)
    } else {
        with_entry(sorted.drop_last(), entry).push(sorted.last())
    }
}

/// Entries in the order of their keys.
pub open spec fn by_key(entries: Seq<(Seq<char>, Seq<char>)>) -> Seq<(Seq<char>, Seq<char>)>
    decreases entries.len(),
{
    if entries.len() == 0 {
        Seq::empty()
    } else {
        with_entry(by_key(entries.drop_last()), entries.last())
    }
}

/// Entries as they stand inside a JSON object, with commas between them.
pub open spec fn json_members(entries: Seq<(Seq<char>, Seq<char>)>) -> Seq<char>
    decreases entries.len(),
{
    if entries.len() == 0 {
        Seq::empty()
    } else {
        let member = json_quoted(entries.last().0) + seq![':'] + json_quoted(entries.last().1);
        if entries.len() == 1 {
            member
        } else {
            json_members(entries.drop_last()) + seq![','] + member
        }
    }
}

/// The JSON object of texts under texts, in the order of their keys where no two share one.
pub open spec fn object_text(entries: Seq<(Seq<char>, Seq<char>)>) -> Seq<char> {
    if keys_differ(entries) {
        seq!['{'] + json_members(by_key(entries)) + seq!['}']
    } else {
        json_object(entries)
    }
}

/// Collects entries into a `serde_json::Map` of texts, and writes it as a `serde_json::Value` with
/// its `Display`. The text is a function of the entries. Where no two share a key, it is the JSON
/// object of all of them in the order of their keys; which of two is kept is not stated.
/// `serde_json::from_str` reads an object of the given entries back, of which no more than one has
/// a given key, and writes it in the same way again.
#[verifier::external_body]
pub(crate) fn object_json(entries: Vec<(String, String)>) -> (text: String)
    ensures
        text@ == json_object(pair_views(entries@)),
        text@ == object_text(pair_views(entries@)),
        holds_entries(json_decoded(text@), pair_views(entries@)),
        is_canonical_json(text@),
{
    let map: serde_json::Map<String, serde_json::Value> = entries
        .into_iter()
        .map(|(key, item)| (key, serde_json::Value::from(item)))
        .collect();
    serde_json::Value::from(map).to_string()
}

/// Texts as the items of a JSON list, with commas between them.
pub open spec fn listed_items(items: Seq<Seq<u8>>) -> Seq<u8>
    decreases items.len(),
{
    if items.len() == 0 {
        Seq::empty()
    } else if items.len() == 1 {
        items[0]
    } else {
        listed_items(items.drop_last()) + seq![44u8] + items.last()
    }
}

/// A JSON list of texts.
pub open spec fn json_list(items: Seq<Seq<u8>>) -> Seq<u8> {
    seq![91u8] + listed_items(items) + seq![93u8]
}

/// The contents of a list of byte strings.
pub open spec fn item_views(items: Seq<Vec<u8>>) -> Seq<Seq<u8>> {
    Seq::new(items.len(), |i: int| items[i]@)
}

pub(crate) fn put_list(buffer: &mut Vec<u8>, items: &Vec<Vec<u8>>)
    ensures
        final(buffer)@ == old(buffer)@ + json_list(item_views(items@)),
{
    let ghost start = buffer@;
    let ghost views = item_views(items@);
    put_byte(buffer, 91);
    let ghost head = buffer@;
    let mut i: usize = 0;
    proof {
        assert(views.take(0) =~= Seq::empty());
        assert(buffer@ =~= head + listed_items(views.take(0)));
    }
    while i < items.len()
        invariant
            i <= items@.len(),
            views == item_views(items@),
            buffer@ == head + listed_items(views.take(i as int)),
        decreases items.len() - i,
    {
        let ghost before = buffer@;
        if i > 0 {
            put_byte(buffer, 44);
        }
        put_bytes(buffer, items[i].as_slice());
        proof {
            let next = views.take(i + 1);
            assert(next.drop_last() =~= views.take(i as int));
            assert(next.last() == items@[i as int]@);
            assert(next[0] == views[0]);
            assert(buffer@ =~= head + listed_items(next));
        }
        i += 1;
    }
    put_byte(buffer, 93);
    proof {
        assert(views.take(i as int) =~= views);
        assert(buffer@ =~= start + json_list(views));
    }
}

/// A JSON list of the numbers that bytes stand for.
pub open spec fn byte_list(bytes: Seq<u8>) -> Seq<u8> {
    json_list(Seq::new(bytes.len(), |i: int| digits_ascii(bytes[i] as nat)))
}

/// The JSON list of a digest's bytes.
pub(crate) fn digest_list(digest: &[u8; 32]) -> (list: Vec<u8>)
    ensures
        list@ == byte_list(digest@),
{
    let mut items: Vec<Vec<u8>> = Vec::new();
    let mut i: usize = 0;
    while i < 32
        invariant
            i <= 32,
            items@.len() == i,
            forall|k: int| 0 <= k < i ==> (#[trigger] items@[k])@ == digits_ascii(digest@[k] as nat),
        decreases 32 - i,
    {
        let mut item: Vec<u8> = Vec::new();
        put_digits(&mut item, digest[i] as u128);
        proof {
            assert(item@ =~= digits_ascii(digest@[i as int] as nat));
        }
        items.push(item);
        i += 1;
    }
    let mut list: Vec<u8> = Vec::new();
    put_list(&mut list, &items);
    proof {
        assert(item_views(items@) =~= Seq::new(
            digest@.len(),
            |i: int| digits_ascii(digest@[i] as nat),
        ));
        assert(list@ =~= byte_list(digest@));
    }
    list
}

/// The JSON text of a whole number.
pub open spec fn integer_ascii(value: int) -> Seq<u8> {
    if value < 0 {
        seq![45u8] + digits_ascii((-value) as nat)
    } else {
        digits_ascii(value as nat)
    }
}

pub(crate) fn put_integer(buffer: &mut Vec<u8>, value: i64)
    ensures
        final(buffer)@ == old(buffer)@ + integer_ascii(value as int),
{
    if value < 0 {
        buffer.push(45);
        put_digits(buffer, (-(value as i128)) as u128);
    } else {
        put_digits(buffer, value as u128);
    }
    proof {
        assert(buffer@ =~= old(buffer)@ + integer_ascii(value as int));
    }
}

} // verus!
