//! Reassembling a streamed (server-sent events) Anthropic response into
//! the message it carries, with its token counts.
use crate::json::{
    entry_views, get_object, get_str, get_str_or_empty, get_u64_or_zero, is_object_of,
    json_from_text, json_get, json_to_text, json_view, lemma_array_view, lemma_object_view,
    parse_json, str_of, str_or_empty, to_json_string, u64_or_zero, views, Json, JsonNum,
    JsonNumber, JsonValue,
};
use crate::text::{
    chars_of, find_line_end, line_end, matches_at, string_from_chars, trim, trim_bounds,
};
use vstd::prelude::*;

verus! {

broadcast use vstd::string::group_string_axioms;

/// The model of what has been gathered from the events read so far.
pub struct SseView {
    pub input_tokens: u64,
    pub output_tokens: u64,
    pub cache_tokens: u64,
    pub message_id: Seq<char>,
    pub message_type: Seq<char>,
    pub message_role: Seq<char>,
    pub message_model: Seq<char>,
    pub stop_reason: Option<Seq<char>>,
    pub content_blocks: Seq<Json>,
    pub block_text: Seq<char>,
    pub block_type: Seq<char>,
    pub block_thinking: Seq<char>,
    pub block_signature: Seq<char>,
}

/// What has been gathered from the events read so far.
pub struct SseState {
    pub input_tokens: u64,
    pub output_tokens: u64,
    pub cache_tokens: u64,
    pub message_id: String,
    pub message_type: String,
    pub message_role: String,
    pub message_model: String,
    pub stop_reason: Option<String>,
    pub content_blocks: Vec<JsonValue>,
    pub block_text: String,
    pub block_type: String,
    pub block_thinking: String,
    pub block_signature: String,
}

impl View for SseState {
    type V = SseView;

    open spec fn view(&self) -> SseView {
        SseView {
            input_tokens: self.input_tokens,
            output_tokens: self.output_tokens,
            cache_tokens: self.cache_tokens,
            message_id: self.message_id@,
            message_type: self.message_type@,
            message_role: self.message_role@,
            message_model: self.message_model@,
            stop_reason: match self.stop_reason {
                Some(s) => Some(s@),
                None => None,
            },
            content_blocks: views(self.content_blocks@),
            block_text: self.block_text@,
            block_type: self.block_type@,
            block_thinking: self.block_thinking@,
            block_signature: self.block_signature@,
        }
    }
}

/// Nothing gathered yet.
pub open spec fn sse_initial() -> SseView {
    SseView {
        input_tokens: 0,
        output_tokens: 0,
        cache_tokens: 0,
        message_id: Seq::empty(),
        message_type: Seq::empty(),
        message_role: Seq::empty(),
        message_model: Seq::empty(),
        stop_reason: None,
        content_blocks: Seq::empty(),
        block_text: Seq::empty(),
        block_type: Seq::empty(),
        block_thinking: Seq::empty(),
        block_signature: Seq::empty(),
    }
}

/// An optional string, or the empty string.
pub open spec fn chars_or_empty(o: Option<Seq<char>>) -> Seq<char> {
    match o {
        Some(s) => s,
        None => Seq::empty(),
    }
}

/// `message_start`: the message's id, type, role and model, and when it
/// has a `usage` object, its input and cache token counts.
pub open spec fn on_message_start(st: SseView, message: Option<Json>) -> SseView {
    if is_object_of(message) {
        let msg = message->0;
        let st1 = SseView {
            message_id: str_or_empty(json_get(msg, "id"@)),
            message_type: str_or_empty(json_get(msg, "type"@)),
            message_role: str_or_empty(json_get(msg, "role"@)),
            message_model: str_or_empty(json_get(msg, "model"@)),
            ..st
        };
        if is_object_of(json_get(msg, "usage"@)) {
            let usage = json_get(msg, "usage"@)->0;
            SseView {
                input_tokens: u64_or_zero(json_get(usage, "input_tokens"@)),
                cache_tokens: u64_or_zero(json_get(usage, "cache_read_input_tokens"@)),
                ..st1
            }
        } else {
            st1
        }
    } else {
        st
    }
}

/// `content_block_start`: a new block with empty text, thinking and
/// signature, of the type the event names (the previous type stays when the
/// event has no `content_block` object).
pub open spec fn on_block_start(st: SseView, block: Option<Json>) -> SseView {
    let st1 = SseView {
        block_text: Seq::empty(),
        block_thinking: Seq::empty(),
        block_signature: Seq::empty(),
        ..st
    };
    if is_object_of(block) {
        SseView { block_type: str_or_empty(json_get(block->0, "type"@)), ..st1 }
    } else {
        st1
    }
}

/// `content_block_delta`: the delta's text, thinking and signature
/// appended to the current block.
pub open spec fn on_block_delta(st: SseView, delta: Option<Json>) -> SseView {
    if is_object_of(delta) {
        let d = delta->0;
        SseView {
            block_text: st.block_text + chars_or_empty(str_of(json_get(d, "text"@))),
            block_thinking: st.block_thinking + chars_or_empty(str_of(json_get(d, "thinking"@))),
            block_signature: st.block_signature + chars_or_empty(
                str_of(json_get(d, "signature"@)),
            ),
            ..st
        }
    } else {
        st
    }
}

/// A string member when the string is not empty.
pub open spec fn member_if_nonempty(key: Seq<char>, value: Seq<char>) -> Seq<(Seq<char>, Json)> {
    if value.len() > 0 {
        seq![(key, Json::Str(value))]
    } else {
        Seq::empty()
    }
}

/// The finished block: its type, then its thinking, signature and text
/// when they are not empty.
pub open spec fn block_json(st: SseView) -> Json {
    Json::Object(
        seq![("type"@, Json::Str(st.block_type))] + member_if_nonempty(
            "thinking"@,
            st.block_thinking,
        ) + member_if_nonempty("signature"@, st.block_signature) + member_if_nonempty(
            "text"@,
            st.block_text,
        ),
    )
}

/// `content_block_stop`: the current block is added to the content and a
/// new one starts with empty text, thinking and signature.
pub open spec fn on_block_stop(st: SseView) -> SseView {
    SseView {
        content_blocks: st.content_blocks.push(block_json(st)),
        block_text: Seq::empty(),
        block_thinking: Seq::empty(),
        block_signature: Seq::empty(),
        ..st
    }
}

/// `message_delta`: the output token count of its `usage`, with the input
/// and cache counts when none were known, and the stop reason of its
/// `delta`.
pub open spec fn on_message_delta(st: SseView, usage: Option<Json>, delta: Option<Json>) -> SseView {
    let st1 = if is_object_of(usage) {
        let u = usage->0;
        SseView {
            output_tokens: u64_or_zero(json_get(u, "output_tokens"@)),
            input_tokens: if st.input_tokens == 0 {
                u64_or_zero(json_get(u, "input_tokens"@))
            } else {
                st.input_tokens
            },
            cache_tokens: if st.cache_tokens == 0 {
                u64_or_zero(json_get(u, "cache_read_input_tokens"@))
            } else {
                st.cache_tokens
            },
            ..st
        }
    } else {
        st
    };
    if is_object_of(delta) {
        SseView { stop_reason: str_of(json_get(delta->0, "stop_reason"@)), ..st1 }
    } else {
        st1
    }
}

/// One event, told apart by its `type`; other types change nothing.
pub open spec fn sse_event(st: SseView, event: Json) -> SseView {
    let kind = str_or_empty(json_get(event, "type"@));
    if kind == "message_start"@ {
        on_message_start(st, json_get(event, "message"@))
    } else if kind == "content_block_start"@ {
        on_block_start(st, json_get(event, "content_block"@))
    } else if kind == "content_block_delta"@ {
        on_block_delta(st, json_get(event, "delta"@))
    } else if kind == "content_block_stop"@ {
        on_block_stop(st)
    } else if kind == "message_delta"@ {
        on_message_delta(st, json_get(event, "usage"@), json_get(event, "delta"@))
    } else {
        st
    }
}

/// A trimmed line of the stream: when it starts with `data: ` and the
/// rest is JSON, the event it holds; otherwise nothing changes.
pub open spec fn sse_data(st: SseView, t: Seq<char>) -> SseView {
    if "data: "@.is_prefix_of(t) {
        match json_from_text(t.skip("data: "@.len() as int)) {
            Some(event) => sse_event(st, event),
            None => st,
        }
    } else {
        st
    }
}

pub proof fn lemma_line_end_bounds(s: Seq<char>)
    ensures
        0 <= line_end(s) <= s.len(),
        line_end(s) < s.len() ==> s[line_end(s)] == '\n',
    decreases s.len(),
{
    if s.len() > 0 && s[0] != '\n' {
        lemma_line_end_bounds(s.drop_first());
    }
}

/// One line of the stream, trimmed.
pub open spec fn sse_line(st: SseView, line: Seq<char>) -> SseView {
    sse_data(st, trim(line))
}

/// The lines of `s` (as `str::lines` splits them; a `\r` ending a line is
/// white space and goes with the trimming) read in order.
pub open spec fn sse_fold(st: SseView, s: Seq<char>) -> SseView
    decreases s.len(),
{
    if s.len() == 0 {
        st
    } else {
        let k = line_end(s);
        let st1 = sse_line(st, s.take(k));
        if k >= s.len() {
            st1
        } else {
            proof {
                lemma_line_end_bounds(s);
            }
            sse_fold(st1, s.skip(k + 1))
        }
    }
}

/// The `usage` object of the reassembled message.
pub open spec fn usage_json(st: SseView) -> Json {
    Json::Object(
        seq![
            ("input_tokens"@, Json::Number(JsonNum::PosInt(st.input_tokens))),
            ("output_tokens"@, Json::Number(JsonNum::PosInt(st.output_tokens))),
        ] + if st.cache_tokens > 0 {
            seq![("cache_read_input_tokens"@, Json::Number(JsonNum::PosInt(st.cache_tokens)))]
        } else {
            Seq::empty()
        },
    )
}

/// The reassembled message: id, type, role and model; the content blocks
/// when there are any; the stop reason when one was given; and the usage.
pub open spec fn message_json(st: SseView) -> Json {
    Json::Object(
        seq![
            ("id"@, Json::Str(st.message_id)),
            ("type"@, Json::Str(st.message_type)),
            ("role"@, Json::Str(st.message_role)),
            ("model"@, Json::Str(st.message_model)),
        ] + (if st.content_blocks.len() > 0 {
            seq![("content"@, Json::Array(st.content_blocks))]
        } else {
            Seq::empty()
        }) + (match st.stop_reason {
            Some(r) => seq![("stop_reason"@, Json::Str(r))],
            None => Seq::empty(),
        }) + seq![("usage"@, usage_json(st))],
    )
}

proof fn lemma_entry_views_push(v: Seq<(String, JsonValue)>, e: (String, JsonValue))
    ensures
        entry_views(v.push(e)) == entry_views(v).push((e.0@, json_view(e.1))),
{
    assert(entry_views(v.push(e)) =~= entry_views(v).push((e.0@, json_view(e.1))));
}

proof fn lemma_views_push(v: Seq<JsonValue>, e: JsonValue)
    ensures
        views(v.push(e)) == views(v).push(json_view(e)),
{
    assert(views(v.push(e)) =~= views(v).push(json_view(e)));
}

/// An object from its members.
fn object_of(entries: Vec<(String, JsonValue)>, Ghost(expected): Ghost<Seq<(Seq<char>, Json)>>) -> (r: JsonValue)
    requires
        entry_views(entries@) == expected,
    ensures
        r@ == Json::Object(expected),
{
    proof {
        lemma_object_view(entries);
    }
    JsonValue::Object(entries)
}

/// Appends a string member.
fn push_str_member(entries: &mut Vec<(String, JsonValue)>, key: &str, value: String)
    ensures
        entry_views(final(entries)@) == entry_views(old(entries)@).push((key@, Json::Str(value@))),
{
    let k = key.to_string();
    proof {
        lemma_entry_views_push(entries@, (k, JsonValue::String(value)));
    }
    entries.push((k, JsonValue::String(value)));
}

/// Appends a string member when the string is not empty.
fn push_str_member_if_nonempty(entries: &mut Vec<(String, JsonValue)>, key: &str, value: &String)
    ensures
        entry_views(final(entries)@) == entry_views(old(entries)@) + member_if_nonempty(key@, value@),
{
    if !value.as_str().is_empty() {
        push_str_member(entries, key, value.clone());
        assert(entry_views(old(entries)@) + member_if_nonempty(key@, value@) =~= entry_views(old(entries)@).push((key@, Json::Str(value@))));
    } else {
        assert(value@.len() == 0);
        assert(entry_views(old(entries)@) + member_if_nonempty(key@, value@) =~= entry_views(old(entries)@));
    }
}

/// Appends a non-negative integer member.
fn push_u64_member(entries: &mut Vec<(String, JsonValue)>, key: &str, value: u64)
    ensures
        entry_views(final(entries)@) == entry_views(old(entries)@).push(
            (key@, Json::Number(JsonNum::PosInt(value))),
        ),
{
    let k = key.to_string();
    proof {
        lemma_entry_views_push(entries@, (k, JsonValue::Number(JsonNumber::PosInt(value))));
    }
    entries.push((k, JsonValue::Number(JsonNumber::PosInt(value))));
}

impl SseState {
    /// Nothing gathered yet.
    pub fn new() -> (s: Self)
        ensures
            s@ == sse_initial(),
    {
        let s = SseState {
            input_tokens: 0,
            output_tokens: 0,
            cache_tokens: 0,
            message_id: String::new(),
            message_type: String::new(),
            message_role: String::new(),
            message_model: String::new(),
            stop_reason: None,
            content_blocks: Vec::new(),
            block_text: String::new(),
            block_type: String::new(),
            block_thinking: String::new(),
            block_signature: String::new(),
        };
        assert(s@.content_blocks =~= Seq::empty());
        s
    }

    fn message_start(&mut self, event: &JsonValue)
        ensures
            final(self)@ == on_message_start(old(self)@, json_get(event@, "message"@)),
    {
        if let Some(msg) = get_object(event, "message") {
            self.message_id = get_str_or_empty(msg, "id");
            self.message_type = get_str_or_empty(msg, "type");
            self.message_role = get_str_or_empty(msg, "role");
            self.message_model = get_str_or_empty(msg, "model");
            // * extract initial usage
            if let Some(usage) = get_object(msg, "usage") {
                self.input_tokens = get_u64_or_zero(usage, "input_tokens");
                self.cache_tokens = get_u64_or_zero(usage, "cache_read_input_tokens");
            }
        }
    }

    fn block_start(&mut self, event: &JsonValue)
        ensures
            final(self)@ == on_block_start(old(self)@, json_get(event@, "content_block"@)),
    {
        // * reset current block
        self.block_text = String::new();
        self.block_thinking = String::new();
        self.block_signature = String::new();
        if let Some(block) = get_object(event, "content_block") {
            self.block_type = get_str_or_empty(block, "type");
        }
    }

    fn block_delta(&mut self, event: &JsonValue)
        ensures
            final(self)@ == on_block_delta(old(self)@, json_get(event@, "delta"@)),
    {
        if let Some(delta) = get_object(event, "delta") {
            if let Some(text) = get_str(delta, "text") {
                self.block_text.append(text.as_str());
            }
            if let Some(thinking) = get_str(delta, "thinking") {
                self.block_thinking.append(thinking.as_str());
            }
            if let Some(sig) = get_str(delta, "signature") {
                self.block_signature.append(sig.as_str());
            }
            proof {
                let d = json_get(event@, "delta"@)->0;
                assert(self.block_text@ =~= old(self)@.block_text + chars_or_empty(str_of(json_get(d, "text"@))));
                assert(self.block_thinking@ =~= old(self)@.block_thinking + chars_or_empty(str_of(json_get(d, "thinking"@))));
                assert(self.block_signature@ =~= old(self)@.block_signature + chars_or_empty(str_of(json_get(d, "signature"@))));
            }
        }
    }

    fn block_stop(&mut self)
        ensures
            final(self)@ == on_block_stop(old(self)@),
    {
        // * build the content block
        let mut entries: Vec<(String, JsonValue)> = Vec::new();
        push_str_member(&mut entries, "type", self.block_type.clone());
        push_str_member_if_nonempty(&mut entries, "thinking", &self.block_thinking);
        push_str_member_if_nonempty(&mut entries, "signature", &self.block_signature);
        push_str_member_if_nonempty(&mut entries, "text", &self.block_text);
        let ghost expected = seq![("type"@, Json::Str(self.block_type@))] + member_if_nonempty(
            "thinking"@,
            self.block_thinking@,
        ) + member_if_nonempty("signature"@, self.block_signature@) + member_if_nonempty(
            "text"@,
            self.block_text@,
        );
        assert(entry_views(entries@) =~= expected);
        let block = object_of(entries, Ghost(expected));
        proof {
            lemma_views_push(self.content_blocks@, block);
        }
        self.content_blocks.push(block);
        // * reset
        self.block_text = String::new();
        self.block_thinking = String::new();
        self.block_signature = String::new();
    }

    fn message_delta(&mut self, event: &JsonValue)
        ensures
            final(self)@ == on_message_delta(
                old(self)@,
                json_get(event@, "usage"@),
                json_get(event@, "delta"@),
            ),
    {
        // * extract final usage
        if let Some(usage) = get_object(event, "usage") {
            self.output_tokens = get_u64_or_zero(usage, "output_tokens");
            if self.input_tokens == 0 {
                self.input_tokens = get_u64_or_zero(usage, "input_tokens");
            }
            // * cache tokens can also be in message_delta
            if self.cache_tokens == 0 {
                self.cache_tokens = get_u64_or_zero(usage, "cache_read_input_tokens");
            }
        }
        if let Some(delta) = get_object(event, "delta") {
            self.stop_reason = match get_str(delta, "stop_reason") {
                Some(s) => Some(s.clone()),
                None => None,
            };
        }
    }

    /// Takes in one event.
    pub fn apply_event(&mut self, event: &JsonValue)
        ensures
            final(self)@ == sse_event(old(self)@, event@),
    {
        let kind = get_str_or_empty(event, "type");
        if kind == "message_start".to_string() {
            self.message_start(event);
        } else if kind == "content_block_start".to_string() {
            self.block_start(event);
        } else if kind == "content_block_delta".to_string() {
            self.block_delta(event);
        } else if kind == "content_block_stop".to_string() {
            self.block_stop();
        } else if kind == "message_delta".to_string() {
            self.message_delta(event);
        }
    }

    /// Takes in the trimmed line `chars[lo..hi]`.
    fn apply_line(&mut self, chars: &Vec<char>, lo: usize, hi: usize)
        requires
            lo <= hi <= chars@.len(),
        ensures
            final(self)@ == sse_data(old(self)@, chars@.subrange(lo as int, hi as int)),
    {
        let prefix = chars_of("data: ");
        let ghost t = chars@.subrange(lo as int, hi as int);
        if hi - lo >= prefix.len() && matches_at(chars, lo, &prefix) {
            assert(prefix@.is_prefix_of(t)) by {
                assert(t.subrange(0, prefix@.len() as int) =~= chars@.skip(lo as int).subrange(
                    0,
                    prefix@.len() as int,
                ));
            }
            let data = string_from_chars(chars, lo + prefix.len(), hi);
            assert(data@ =~= t.skip(prefix@.len() as int));
            if let Some(event) = parse_json(data.as_str()) {
                self.apply_event(&event);
            }
        } else {
            assert(!prefix@.is_prefix_of(t)) by {
                if prefix@.is_prefix_of(t) {
                    assert(t.subrange(0, prefix@.len() as int) =~= chars@.skip(lo as int).subrange(
                        0,
                        prefix@.len() as int,
                    ));
                }
            }
        }
    }

    /// The reassembled message.
    pub fn into_message(self) -> (r: JsonValue)
        ensures
            r@ == message_json(self@),
    {
        let ghost st = self@;
        let mut entries: Vec<(String, JsonValue)> = Vec::new();
        push_str_member(&mut entries, "id", self.message_id);
        push_str_member(&mut entries, "type", self.message_type);
        push_str_member(&mut entries, "role", self.message_role);
        push_str_member(&mut entries, "model", self.message_model);
        let ghost head = entry_views(entries@);
        if self.content_blocks.len() > 0 {
            let blocks = self.content_blocks;
            proof {
                lemma_array_view(blocks);
            }
            let k = "content".to_string();
            proof {
                lemma_entry_views_push(entries@, (k, JsonValue::Array(blocks)));
            }
            entries.push((k, JsonValue::Array(blocks)));
        }
        let ghost with_content = entry_views(entries@);
        assert(with_content =~= head + (if st.content_blocks.len() > 0 {
            seq![("content"@, Json::Array(st.content_blocks))]
        } else {
            Seq::empty()
        }));
        match self.stop_reason {
            Some(reason) => push_str_member(&mut entries, "stop_reason", reason),
            None => {},
        }
        let ghost with_reason = entry_views(entries@);
        assert(with_reason =~= with_content + (match st.stop_reason {
            Some(r) => seq![("stop_reason"@, Json::Str(r))],
            None => Seq::empty(),
        }));
        // * build usage object
        let mut usage: Vec<(String, JsonValue)> = Vec::new();
        push_u64_member(&mut usage, "input_tokens", self.input_tokens);
        push_u64_member(&mut usage, "output_tokens", self.output_tokens);
        if self.cache_tokens > 0 {
            push_u64_member(&mut usage, "cache_read_input_tokens", self.cache_tokens);
        }
        let ghost usage_expected = seq![
            ("input_tokens"@, Json::Number(JsonNum::PosInt(st.input_tokens))),
            ("output_tokens"@, Json::Number(JsonNum::PosInt(st.output_tokens))),
        ] + if st.cache_tokens > 0 {
            seq![("cache_read_input_tokens"@, Json::Number(JsonNum::PosInt(st.cache_tokens)))]
        } else {
            Seq::empty()
        };
        assert(entry_views(usage@) =~= usage_expected);
        let usage_obj = object_of(usage, Ghost(usage_expected));
        let k = "usage".to_string();
        proof {
            lemma_entry_views_push(entries@, (k, usage_obj));
        }
        entries.push((k, usage_obj));
        let ghost expected = seq![
            ("id"@, Json::Str(st.message_id)),
            ("type"@, Json::Str(st.message_type)),
            ("role"@, Json::Str(st.message_role)),
            ("model"@, Json::Str(st.message_model)),
        ] + (if st.content_blocks.len() > 0 {
            seq![("content"@, Json::Array(st.content_blocks))]
        } else {
            Seq::empty()
        }) + (match st.stop_reason {
            Some(r) => seq![("stop_reason"@, Json::Str(r))],
            None => Seq::empty(),
        }) + seq![("usage"@, usage_json(st))];
        assert(entry_views(entries@) =~= expected);
        object_of(entries, Ghost(expected))
    }
}

/// Parses the events of a streamed response and reassembles the message:
/// its JSON text, then the input, output and cache token counts.
pub fn parse_sse_events(response: &str) -> (r: (String, u64, u64, u64))
    ensures
        ({
            let st = sse_fold(sse_initial(), response@);
            &&& r.0@ == json_to_text(message_json(st))
            &&& r.1 == st.input_tokens
            &&& r.2 == st.output_tokens
            &&& r.3 == st.cache_tokens
        }),
{
    let chars = chars_of(response);
    let mut state = SseState::new();
    let mut start: usize = 0;
    assert(chars@.skip(0) =~= chars@);
    while start < chars.len()
        invariant
            start <= chars@.len(),
            sse_fold(sse_initial(), chars@) == sse_fold(state@, chars@.skip(start as int)),
        decreases chars@.len() - start,
    {
        let end = find_line_end(&chars, start);
        let (a, b) = trim_bounds(&chars, start, end);
        let ghost before = state@;
        state.apply_line(&chars, a, b);
        proof {
            let s = chars@.skip(start as int);
            lemma_line_end_bounds(s);
            assert(s.take(end - start) =~= chars@.subrange(start as int, end as int));
            if end < chars@.len() {
                assert(s.skip(end - start + 1) =~= chars@.skip(end + 1));
            }
        }
        if end < chars.len() {
            start = end + 1;
        } else {
            start = chars.len();
            assert(chars@.skip(start as int) =~= Seq::<char>::empty());
        }
    }
    assert(chars@.skip(start as int) =~= Seq::<char>::empty());
    let input = state.input_tokens;
    let output = state.output_tokens;
    let cache = state.cache_tokens;
    let message = state.into_message();
    (to_json_string(&message), input, output, cache)
}

/// Once known, the input and cache token counts are replaced only by a
/// `message_start` event: a `message_delta` fills them in only while they are 0.
pub proof fn lemma_known_counts_kept(st: SseView, event: Json)
    requires
        str_or_empty(json_get(event, "type"@)) != "message_start"@,
    ensures
        st.input_tokens != 0 ==> sse_event(st, event).input_tokens == st.input_tokens,
        st.cache_tokens != 0 ==> sse_event(st, event).cache_tokens == st.cache_tokens,
{
}

/// The content blocks gathered so far stay, in order: an event at most adds one.
pub proof fn lemma_blocks_kept_by_event(st: SseView, event: Json)
    ensures
        st.content_blocks.is_prefix_of(sse_event(st, event).content_blocks),
{
    let after = sse_event(st, event).content_blocks;
    if after.len() != st.content_blocks.len() {
        assert(after.subrange(0, st.content_blocks.len() as int) =~= st.content_blocks);
    } else {
        assert(after.subrange(0, st.content_blocks.len() as int) =~= st.content_blocks);
    }
}

/// Reading a stream keeps the content blocks gathered before it, in order.
pub proof fn lemma_blocks_kept_by_stream(st: SseView, s: Seq<char>)
    ensures
        st.content_blocks.is_prefix_of(sse_fold(st, s).content_blocks),
    decreases s.len(),
{
    if s.len() > 0 {
        let k = line_end(s);
        let st1 = sse_line(st, s.take(k));
        let t = trim(s.take(k));
        if "data: "@.is_prefix_of(t) {
            if let Some(event) = json_from_text(t.skip("data: "@.len() as int)) {
                lemma_blocks_kept_by_event(st, event);
            }
        }
        assert(st.content_blocks.is_prefix_of(st1.content_blocks));
        if k < s.len() {
            lemma_line_end_bounds(s);
            lemma_blocks_kept_by_stream(st1, s.skip(k + 1));
            let b0 = st.content_blocks;
            let b1 = st1.content_blocks;
            let b2 = sse_fold(st1, s.skip(k + 1)).content_blocks;
            assert(b2.subrange(0, b0.len() as int) =~= b1.subrange(0, b0.len() as int));
        }
    }
}

/// A line that changes nothing: trimmed, it does not start with `data: `,
/// or what follows is not JSON, or the event's `type` is none of those read.
pub open spec fn is_inert_line(line: Seq<char>) -> bool {
    let t = trim(line);
    ||| !"data: "@.is_prefix_of(t)
    ||| match json_from_text(t.skip("data: "@.len() as int)) {
        None => true,
        Some(event) => {
            let kind = str_or_empty(json_get(event, "type"@));
            &&& kind != "message_start"@
            &&& kind != "content_block_start"@
            &&& kind != "content_block_delta"@
            &&& kind != "content_block_stop"@
            &&& kind != "message_delta"@
        },
    }
}

/// `s` is a run of whole lines: empty, or ending in a line feed.
pub open spec fn whole_lines(s: Seq<char>) -> bool {
    s.len() == 0 || s.last() == '\n'
}

/// A line that changes nothing leaves any gathered state as it is.
pub proof fn lemma_inert_line(st: SseView, line: Seq<char>)
    requires
        is_inert_line(line),
    ensures
        sse_line(st, line) == st,
{
}

/// The first line of `a + rest` ends where the first line of `a` ends,
/// when `a` ends in a line feed.
proof fn lemma_line_end_prefix(a: Seq<char>, rest: Seq<char>)
    requires
        a.len() > 0,
        a.last() == '\n',
    ensures
        line_end(a + rest) == line_end(a),
        line_end(a) < a.len(),
    decreases a.len(),
{
    assert((a + rest)[0] == a[0]);
    if a[0] != '\n' {
        assert(a.len() > 1);
        assert(a.drop_first().last() == '\n');
        assert((a + rest).drop_first() =~= a.drop_first() + rest);
        lemma_line_end_prefix(a.drop_first(), rest);
    }
}

/// The first line of `line + "\n" + rest` is `line`, when `line` holds no
/// line feed.
proof fn lemma_line_end_of_line(line: Seq<char>, rest: Seq<char>)
    requires
        !line.contains('\n'),
    ensures
        line_end(line + seq!['\n'] + rest) == line.len(),
    decreases line.len(),
{
    let s = line + seq!['\n'] + rest;
    if line.len() == 0 {
        assert(s[0] == '\n');
    } else {
        assert(s[0] == line[0]);
        assert(!line.drop_first().contains('\n')) by {
            if line.drop_first().contains('\n') {
                let i = choose|i: int| 0 <= i < line.drop_first().len() && line.drop_first()[i] == '\n';
                assert(line[i + 1] == '\n');
            }
        }
        assert(line[0] != '\n') by {
            if line[0] == '\n' {
                assert(line.contains('\n'));
            }
        }
        assert(s.drop_first() =~= line.drop_first() + seq!['\n'] + rest);
        lemma_line_end_of_line(line.drop_first(), rest);
    }
}

/// Lines that change nothing can stand anywhere between the lines of a
/// stream: inserting one after any whole lines leaves what is gathered
/// from the stream unchanged.
pub proof fn lemma_inert_line_inserted(st: SseView, a: Seq<char>, line: Seq<char>, b: Seq<char>)
    requires
        whole_lines(a),
        !line.contains('\n'),
        is_inert_line(line),
    ensures
        sse_fold(st, a + line + seq!['\n'] + b) == sse_fold(st, a + b),
    decreases a.len(),
{
    let with = a + line + seq!['\n'] + b;
    if a.len() == 0 {
        assert(with =~= line + seq!['\n'] + b);
        assert(a + b =~= b);
        lemma_line_end_of_line(line, b);
        assert(with.take(line.len() as int) =~= line);
        assert(with.skip(line.len() as int + 1) =~= b);
        lemma_inert_line(st, line);
    } else {
        let rest_with = line + seq!['\n'] + b;
        assert(with =~= a + rest_with);
        lemma_line_end_prefix(a, rest_with);
        lemma_line_end_prefix(a, b);
        lemma_line_end_bounds(a);
        let k = line_end(a);
        assert((a + rest_with).take(k) =~= a.take(k));
        assert((a + b).take(k) =~= a.take(k));
        let st1 = sse_line(st, a.take(k));
        let a2 = a.skip(k + 1);
        assert((a + rest_with).skip(k + 1) =~= a2 + line + seq!['\n'] + b);
        assert((a + b).skip(k + 1) =~= a2 + b);
        assert(whole_lines(a2)) by {
            if a2.len() > 0 {
                assert(a2.last() == a.last());
            }
        }
        lemma_inert_line_inserted(st1, a2, line, b);
    }
}

/// Reading whole lines and then more text is reading the whole lines,
/// then the text from the state they left.
pub proof fn lemma_fold_whole_lines_then(st: SseView, p: Seq<char>, x: Seq<char>)
    requires
        whole_lines(p),
    ensures
        sse_fold(st, p + x) == sse_fold(sse_fold(st, p), x),
    decreases p.len(),
{
    if p.len() == 0 {
        assert(p + x =~= x);
    } else {
        lemma_line_end_prefix(p, x);
        lemma_line_end_bounds(p);
        let k = line_end(p);
        assert((p + x).take(k) =~= p.take(k));
        let p2 = p.skip(k + 1);
        assert((p + x).skip(k + 1) =~= p2 + x);
        assert(whole_lines(p2)) by {
            if p2.len() > 0 {
                assert(p2.last() == p.last());
            }
        }
        lemma_fold_whole_lines_then(sse_line(st, p.take(k)), p2, x);
    }
}

/// Lines, each followed by a line feed.
pub open spec fn join_lines(lines: Seq<Seq<char>>) -> Seq<char>
    decreases lines.len(),
{
    if lines.len() == 0 {
        Seq::empty()
    } else {
        lines[0] + seq!['\n'] + join_lines(lines.drop_first())
    }
}

/// Every line is free of line feeds and changes nothing.
pub open spec fn all_inert(lines: Seq<Seq<char>>) -> bool {
    forall|i: int| 0 <= i < lines.len() ==> !#[trigger] lines[i].contains('\n') && is_inert_line(lines[i])
}

/// Reading lines that change nothing leaves the state as it is.
pub proof fn lemma_inert_lines_fold(st: SseView, lines: Seq<Seq<char>>)
    requires
        all_inert(lines),
    ensures
        sse_fold(st, join_lines(lines)) == st,
        whole_lines(join_lines(lines)),
    decreases lines.len(),
{
    if lines.len() > 0 {
        let rest = lines.drop_first();
        assert(all_inert(rest)) by {
            assert forall|i: int| 0 <= i < rest.len() implies !#[trigger] rest[i].contains('\n')
                && is_inert_line(rest[i]) by {
                assert(rest[i] == lines[i + 1]);
            }
        }
        assert(!lines[0].contains('\n') && is_inert_line(lines[0]));
        lemma_inert_lines_fold(st, rest);
        let e = Seq::<char>::empty();
        lemma_inert_line_inserted(st, e, lines[0], join_lines(rest));
        assert(e + lines[0] + seq!['\n'] + join_lines(rest) =~= join_lines(lines));
        assert(e + join_lines(rest) =~= join_lines(rest));
        let j = join_lines(lines);
        assert(j.len() > 0);
        if join_lines(rest).len() == 0 {
            assert(j.last() == '\n');
        } else {
            assert(j.last() == join_lines(rest).last());
        }
    }
}

/// A stream made of whole-line pieces with a block of lines after each,
/// then a tail.
pub open spec fn interleave(pieces: Seq<Seq<char>>, blocks: Seq<Seq<Seq<char>>>, tail: Seq<char>) -> Seq<char>
    decreases pieces.len(),
{
    if pieces.len() == 0 || blocks.len() == 0 {
        tail
    } else {
        pieces[0] + join_lines(blocks[0]) + interleave(pieces.drop_first(), blocks.drop_first(), tail)
    }
}

/// The pieces followed by the tail.
pub open spec fn concat_pieces(pieces: Seq<Seq<char>>, tail: Seq<char>) -> Seq<char>
    decreases pieces.len(),
{
    if pieces.len() == 0 {
        tail
    } else {
        pieces[0] + concat_pieces(pieces.drop_first(), tail)
    }
}

/// Lines that change nothing can be inserted anywhere between the lines of
/// a stream, any number at each place: split the stream into pieces of
/// whole lines and a tail, put a block of such lines after each piece, and
/// what is gathered from the stream stays the same.
pub proof fn lemma_inert_lines_inserted(
    st: SseView,
    pieces: Seq<Seq<char>>,
    blocks: Seq<Seq<Seq<char>>>,
    tail: Seq<char>,
)
    requires
        pieces.len() == blocks.len(),
        forall|i: int| 0 <= i < pieces.len() ==> whole_lines(#[trigger] pieces[i]),
        forall|i: int| 0 <= i < blocks.len() ==> all_inert(#[trigger] blocks[i]),
    ensures
        sse_fold(st, interleave(pieces, blocks, tail)) == sse_fold(st, concat_pieces(pieces, tail)),
    decreases pieces.len(),
{
    if pieces.len() > 0 {
        let p0 = pieces[0];
        let b0 = blocks[0];
        let ps = pieces.drop_first();
        let bs = blocks.drop_first();
        assert(whole_lines(p0));
        assert(all_inert(b0));
        assert forall|i: int| 0 <= i < ps.len() implies whole_lines(#[trigger] ps[i]) by {
            assert(ps[i] == pieces[i + 1]);
        }
        assert forall|i: int| 0 <= i < bs.len() implies all_inert(#[trigger] bs[i]) by {
            assert(bs[i] == blocks[i + 1]);
        }
        let t_rest = interleave(ps, bs, tail);
        let r_rest = concat_pieces(ps, tail);
        let j = join_lines(b0);
        let mid = sse_fold(st, p0);
        lemma_inert_lines_fold(mid, b0);
        lemma_inert_lines_inserted(mid, ps, bs, tail);
        // the stream with insertions
        assert(p0 + j + t_rest =~= p0 + (j + t_rest));
        lemma_fold_whole_lines_then(st, p0, j + t_rest);
        lemma_fold_whole_lines_then(mid, j, t_rest);
        // the stream without
        lemma_fold_whole_lines_then(st, p0, r_rest);
    }
}

/// The deltas of a block accumulate: after a `content_block_delta` event,
/// the current block's thinking, text and signature are each what they
/// were before, followed by the string of that name that the delta
/// carries (nothing is added where it carries none), and the finished
/// blocks stay as they were.
pub proof fn lemma_deltas_accumulate(st: SseView, event: Json, delta: Json)
    requires
        json_get(event, "type"@) == Some(Json::Str("content_block_delta"@)),
        json_get(event, "delta"@) == Some(delta),
        delta is Object,
    ensures
        json_get(delta, "thinking"@) matches Some(Json::Str(t)) ==> sse_event(st, event).block_thinking
            == st.block_thinking + t,
        json_get(delta, "text"@) matches Some(Json::Str(t)) ==> sse_event(st, event).block_text
            == st.block_text + t,
        json_get(delta, "signature"@) matches Some(Json::Str(t)) ==> sse_event(
            st,
            event,
        ).block_signature == st.block_signature + t,
        !(json_get(delta, "thinking"@) matches Some(Json::Str(_))) ==> sse_event(
            st,
            event,
        ).block_thinking == st.block_thinking,
        !(json_get(delta, "text"@) matches Some(Json::Str(_))) ==> sse_event(st, event).block_text
            == st.block_text,
        sse_event(st, event).content_blocks == st.content_blocks,
        sse_event(st, event).block_type == st.block_type,
{
    reveal_strlit("content_block_delta");
    reveal_strlit("message_start");
    reveal_strlit("content_block_start");
    let kind = "content_block_delta"@;
    assert(kind != "message_start"@) by {
        assert(kind[0] != "message_start"@[0]);
    }
    assert(kind != "content_block_start"@) by {
        assert(kind[14] != "content_block_start"@[14]);
    }
    assert(str_or_empty(json_get(event, "type"@)) == kind);
    let after = sse_event(st, event);
    assert(after == on_block_delta(st, Some(delta)));
    match json_get(delta, "thinking"@) {
        Some(Json::Str(t)) => {
            assert(chars_or_empty(str_of(json_get(delta, "thinking"@))) == t);
        },
        _ => {
            assert(after.block_thinking =~= st.block_thinking);
        },
    }
    match json_get(delta, "text"@) {
        Some(Json::Str(t)) => {},
        _ => {
            assert(after.block_text =~= st.block_text);
        },
    }
}


/// The events taken in one after another.
pub open spec fn sse_events(st: SseView, events: Seq<Json>) -> SseView
    decreases events.len(),
{
    if events.len() == 0 {
        st
    } else {
        sse_events(sse_event(st, events[0]), events.drop_first())
    }
}

/// The strings one after another.
pub open spec fn concat_all(pieces: Seq<Seq<char>>) -> Seq<char>
    decreases pieces.len(),
{
    if pieces.len() == 0 {
        Seq::empty()
    } else {
        pieces[0] + concat_all(pieces.drop_first())
    }
}

/// A `content_block_delta` event whose delta is an object with the
/// string `thinking` t.
pub open spec fn is_thinking_delta(event: Json, t: Seq<char>) -> bool {
    exists|delta: Json|
        {
            &&& json_get(event, "type"@) == Some(Json::Str("content_block_delta"@))
            &&& json_get(event, "delta"@) == Some(delta)
            &&& delta is Object
            &&& #[trigger] json_get(delta, "thinking"@) == Some(Json::Str(t))
        }
}

/// A run of thinking deltas leaves as the block's thinking what it was
/// before followed by their thinking strings, in the order they came.
pub proof fn lemma_thinking_deltas_concatenate(st: SseView, events: Seq<Json>, pieces: Seq<Seq<char>>)
    requires
        events.len() == pieces.len(),
        forall|i: int| 0 <= i < events.len() ==> is_thinking_delta(#[trigger] events[i], pieces[i]),
    ensures
        sse_events(st, events).block_thinking == st.block_thinking + concat_all(pieces),
        sse_events(st, events).content_blocks == st.content_blocks,
    decreases events.len(),
{
    if events.len() == 0 {
        assert(st.block_thinking + concat_all(pieces) =~= st.block_thinking);
    } else {
        assert(is_thinking_delta(events[0], pieces[0]));
        let delta = choose|delta: Json|
            {
                &&& json_get(events[0], "type"@) == Some(Json::Str("content_block_delta"@))
                &&& json_get(events[0], "delta"@) == Some(delta)
                &&& delta is Object
                &&& #[trigger] json_get(delta, "thinking"@) == Some(Json::Str(pieces[0]))
            };
        lemma_deltas_accumulate(st, events[0], delta);
        let next = sse_event(st, events[0]);
        assert forall|i: int| 0 <= i < events.drop_first().len() implies is_thinking_delta(
            #[trigger] events.drop_first()[i],
            pieces.drop_first()[i],
        ) by {
            assert(is_thinking_delta(events[i + 1], pieces[i + 1]));
        }
        lemma_thinking_deltas_concatenate(next, events.drop_first(), pieces.drop_first());
        assert(st.block_thinking + pieces[0] + concat_all(pieces.drop_first()) =~= st.block_thinking
            + concat_all(pieces));
    }
}

} // verus!
