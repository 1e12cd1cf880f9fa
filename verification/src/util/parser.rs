//! Reading the model name and the latest message text out of a request body.
use crate::json::{array_of, get_array, get_str, json_from_text, json_get, lookup, parse_json, str_of, views, Json, JsonValue};
use crate::text::opt_string_view;
use vstd::prelude::*;

verus! {

broadcast use vstd::string::group_string_axioms;

/// The `model` member of a request document, when it is a string.
pub open spec fn model_of(doc: Json) -> Option<Seq<char>> {
    str_of(json_get(doc, "model"@))
}

/// The text of one message: its `content` when that is a string, else the
/// `text` of the last block of its `content` array.
pub open spec fn item_text(item: Json) -> Option<Seq<char>> {
    match str_of(json_get(item, "content"@)) {
        Some(s) => Some(s),
        None => match array_of(json_get(item, "content"@)) {
            Some(blocks) => if blocks.len() > 0 {
                str_of(json_get(blocks.last(), "text"@))
            } else {
                None
            },
            None => None,
        },
    }
}

/// The text of the last message of the array member `key` of `doc`.
pub open spec fn last_item_text(doc: Json, key: Seq<char>) -> Option<Seq<char>> {
    match array_of(json_get(doc, key)) {
        Some(items) => if items.len() > 0 {
            item_text(items.last())
        } else {
            None
        },
        None => None,
    }
}

/// The latest message text of a request document: from the last of its
/// `messages` (OpenAI chat and Anthropic), else from the last of its
/// `input` (OpenAI Responses API).
pub open spec fn content_of(doc: Json) -> Option<Seq<char>> {
    match last_item_text(doc, "messages"@) {
        Some(s) => Some(s),
        None => last_item_text(doc, "input"@),
    }
}

/// What `f` gives for the document parsed from `body`, nothing when `body`
/// is not JSON.
pub open spec fn of_parsed(body: Seq<char>, f: spec_fn(Json) -> Option<Seq<char>>) -> Option<
    Seq<char>,
> {
    match json_from_text(body) {
        Some(doc) => f(doc),
        None => None,
    }
}

/// The `model` member of a parsed request document.
pub fn model_field(doc: &JsonValue) -> (r: Option<String>)
    ensures
        opt_string_view(r) == model_of(doc@),
{
    match get_str(doc, "model") {
        Some(s) => Some(s.clone()),
        None => None,
    }
}

/// The text of one message.
fn item_text_field(item: &JsonValue) -> (r: Option<String>)
    ensures
        opt_string_view(r) == item_text(item@),
{
    if let Some(s) = get_str(item, "content") {
        return Some(s.clone());
    }
    if let Some(blocks) = get_array(item, "content") {
        if blocks.len() > 0 {
            let last = &blocks[blocks.len() - 1];
            assert(views(blocks@).last() == last@);
            if let Some(t) = get_str(last, "text") {
                return Some(t.clone());
            }
        }
    }
    None
}

/// The text of the last message of the array member `key`.
fn last_item_text_field(doc: &JsonValue, key: &str) -> (r: Option<String>)
    ensures
        opt_string_view(r) == last_item_text(doc@, key@),
{
    if let Some(items) = get_array(doc, key) {
        if items.len() > 0 {
            let last = &items[items.len() - 1];
            assert(views(items@).last() == last@);
            return item_text_field(last);
        }
    }
    None
}

/// The latest message text of a parsed request document.
pub fn content_field(doc: &JsonValue) -> (r: Option<String>)
    ensures
        opt_string_view(r) == content_of(doc@),
{
    match last_item_text_field(doc, "messages") {
        Some(s) => Some(s),
        None => last_item_text_field(doc, "input"),
    }
}

/// Extracts the model name from a request body: `Some` when the body is
/// JSON with a string `model` member.
pub fn extract_model(body: &str) -> (r: Option<String>)
    ensures
        opt_string_view(r) == of_parsed(body@, |doc: Json| model_of(doc)),
{
    match parse_json(body) {
        Some(doc) => model_field(&doc),
        None => None,
    }
}

/// Extracts the content of the last message of a request body, in the
/// OpenAI chat, Anthropic and OpenAI Responses API formats.
pub fn extract_content(body: &str) -> (r: Option<String>)
    ensures
        opt_string_view(r) == of_parsed(body@, |doc: Json| content_of(doc)),
{
    match parse_json(body) {
        Some(doc) => content_field(&doc),
        None => None,
    }
}

/// The latest message text comes from the last item: when the `messages`
/// (or, without a `messages` array, the `input`) of a document is a
/// non-empty array whose last item has a string `content`, that string is
/// the content, whatever the earlier items hold.
pub proof fn lemma_last_item_wins(doc: Json, items: Seq<Json>, s: Seq<char>)
    requires
        items.len() > 0,
        json_get(items.last(), "content"@) == Some(Json::Str(s)),
    ensures
        json_get(doc, "messages"@) == Some(Json::Array(items)) ==> content_of(doc) == Some(s),
        array_of(json_get(doc, "messages"@)) is None && json_get(doc, "input"@) == Some(
            Json::Array(items),
        ) ==> content_of(doc) == Some(s),
{
}

/// Appending to the `input` of a request an item whose `content` is the
/// string `s` makes `s` the extracted content, whatever came before.
pub proof fn lemma_appended_input_wins(items: Seq<Json>, s: Seq<char>)
    ensures
        content_of(
            Json::Object(
                seq![("input"@, Json::Array(items.push(Json::Object(seq![("content"@, Json::Str(s))]))))],
            ),
        ) == Some(s),
{
    reveal_strlit("input");
    reveal_strlit("messages");
    reveal_strlit("content");
    let item = Json::Object(seq![("content"@, Json::Str(s))]);
    let doc = Json::Object(seq![("input"@, Json::Array(items.push(item)))]);
    assert("input"@ != "messages"@) by {
        assert("input"@.len() != "messages"@.len());
    }
    let entries = seq![("input"@, Json::Array(items.push(item)))];
    assert(entries.drop_first() =~= Seq::<(Seq<char>, Json)>::empty());
    assert(lookup(entries.drop_first(), "messages"@) is None);
    assert(entries[0].0 != "messages"@);
    assert(json_get(doc, "messages"@) is None);
    assert(json_get(doc, "input"@) == Some(Json::Array(items.push(item))));
    assert(json_get(item, "content"@) == Some(Json::Str(s)));
    lemma_last_item_wins(doc, items.push(item), s);
}

/// A message whose `content` is an array of blocks gives the `text` of
/// its last block, whatever the earlier blocks hold.
pub proof fn lemma_last_block_text(item: Json, blocks: Seq<Json>, t: Seq<char>)
    requires
        json_get(item, "content"@) == Some(Json::Array(blocks)),
        blocks.len() > 0,
        json_get(blocks.last(), "text"@) == Some(Json::Str(t)),
    ensures
        item_text(item) == Some(t),
{
}

} // verus!
