//! Message content: the parts of a chat message, and how they are read for display.
use crate::external::{decimal_text, json_parse, parse_json_text, utf8_error_text, utf8_text};
use crate::json::{json_get_str, lemma_fields_view, lemma_items_view, JsonValue, JsonView};
use crate::text::{decimal, join, join_strings, owned, strings_view};
use vstd::prelude::*;
use vstd::string::StringSliceAdditionalSpecFns;
use vstd::utf8::{decode_utf8, encode_utf8, encode_utf8_decode_utf8, is_char_boundary, valid_utf8};

verus! {

/// A call of a tool that the model asks for; `input` is JSON bytes.
#[derive(Debug)]
pub struct ToolUse {
    pub id: String,
    pub name: String,
    pub input: Vec<u8>,
}

/// What a tool call gave back; `content` is JSON bytes.
#[derive(Debug)]
pub struct ToolResult {
    pub tool_use_id: String,
    pub content: Vec<u8>,
    pub is_error: bool,
}

/// One part of a message.
#[derive(Debug)]
pub enum MessageContent {
    Text(String),
    ToolUse(ToolUse),
    ToolResult(ToolResult),
}

/// The model of one part of a message.
pub enum ContentView {
    Text(Seq<char>),
    ToolUse { id: Seq<char>, name: Seq<char>, input: Seq<u8> },
    ToolResult { tool_use_id: Seq<char>, content: Seq<u8>, is_error: bool },
}

impl View for MessageContent {
    type V = ContentView;

    open spec fn view(&self) -> ContentView {
        match self {
            MessageContent::Text(t) => ContentView::Text(t@),
            MessageContent::ToolUse(u) => ContentView::ToolUse {
                id: u.id@,
                name: u.name@,
                input: u.input@,
            },
            MessageContent::ToolResult(r) => ContentView::ToolResult {
                tool_use_id: r.tool_use_id@,
                content: r.content@,
                is_error: r.is_error,
            },
        }
    }
}

/// A copy of some bytes.
pub fn copy_bytes(b: &Vec<u8>) -> (r: Vec<u8>)
    ensures
        r@ == b@,
{
    let r = b.clone();
    assert(r@ =~= b@);
    r
}

impl ToolUse {
    /// A copy of this tool call.
    pub fn duplicate(&self) -> (r: ToolUse)
        ensures
            MessageContent::ToolUse(r)@ == MessageContent::ToolUse(*self)@,
    {
        ToolUse { id: self.id.clone(), name: self.name.clone(), input: copy_bytes(&self.input) }
    }
}

impl ToolResult {
    /// A copy of this tool result.
    pub fn duplicate(&self) -> (r: ToolResult)
        ensures
            MessageContent::ToolResult(r)@ == MessageContent::ToolResult(*self)@,
    {
        ToolResult {
            tool_use_id: self.tool_use_id.clone(),
            content: copy_bytes(&self.content),
            is_error: self.is_error,
        }
    }
}

impl MessageContent {
    /// A copy of this part.
    pub fn duplicate(&self) -> (r: MessageContent)
        ensures
            r@ == self@,
    {
        match self {
            MessageContent::Text(t) => MessageContent::Text(t.clone()),
            MessageContent::ToolUse(u) => MessageContent::ToolUse(u.duplicate()),
            MessageContent::ToolResult(t) => MessageContent::ToolResult(t.duplicate()),
        }
    }
}

/// The models of a sequence of message parts.
pub open spec fn contents_view(c: Seq<MessageContent>) -> Seq<ContentView> {
    c.map_values(|x: MessageContent| x@)
}

/// Where a tool call stands in the interface.
#[derive(Debug, Clone, Copy, PartialEq, Eq, Structural)]
pub enum ToolStatus {
    Pending,
    Executing,
    Completed,
    Error,
}

/// A tool call with its input read as JSON, for display.
#[derive(Debug)]
pub struct RichToolUse {
    pub id: String,
    pub name: String,
    pub input: JsonValue,
    pub status: ToolStatus,
}

/// A tool result with its content read as JSON, for display.
#[derive(Debug)]
pub struct RichToolResult {
    pub tool_use_id: String,
    pub content: JsonValue,
    pub is_error: bool,
    pub execution_time_ms: Option<u64>,
}

pub struct RichToolUseView {
    pub id: Seq<char>,
    pub name: Seq<char>,
    pub input: JsonView,
    pub status: ToolStatus,
}

pub struct RichToolResultView {
    pub tool_use_id: Seq<char>,
    pub content: JsonView,
    pub is_error: bool,
    pub execution_time_ms: Option<u64>,
}

impl View for RichToolUse {
    type V = RichToolUseView;

    open spec fn view(&self) -> RichToolUseView {
        RichToolUseView { id: self.id@, name: self.name@, input: self.input@, status: self.status }
    }
}

impl View for RichToolResult {
    type V = RichToolResultView;

    open spec fn view(&self) -> RichToolResultView {
        RichToolResultView {
            tool_use_id: self.tool_use_id@,
            content: self.content@,
            is_error: self.is_error,
            execution_time_ms: self.execution_time_ms,
        }
    }
}

pub open spec fn tool_uses_view(v: Seq<RichToolUse>) -> Seq<RichToolUseView> {
    v.map_values(|x: RichToolUse| x@)
}

pub open spec fn tool_results_view(v: Seq<RichToolResult>) -> Seq<RichToolResultView> {
    v.map_values(|x: RichToolResult| x@)
}

// ---------------------------------------------------------------------------
// Reading JSON bytes
// ---------------------------------------------------------------------------
/// What `parse_json_data` gives for some bytes: the document, or the message
/// of the first step that refused them.
pub open spec fn json_data_parse(bytes: Seq<u8>) -> Result<JsonView, Seq<char>> {
    if !valid_utf8(bytes) {
        Err("Invalid UTF-8 in JSON data: "@ + utf8_error_text(bytes))
    } else {
        match json_parse(decode_utf8(bytes)) {
            Ok(v) => Ok(v),
            Err(e) => Err("Invalid JSON: "@ + e),
        }
    }
}

/// Reads JSON bytes: they must be UTF-8, and the text must be one JSON document.
pub fn parse_json_data(json_data: &[u8]) -> (r: Result<JsonValue, String>)
    ensures
        match r {
            Ok(v) => json_data_parse(json_data@) == Ok::<JsonView, Seq<char>>(v@),
            Err(e) => json_data_parse(json_data@) == Err::<JsonView, Seq<char>>(e@),
        },
{
    match utf8_text(json_data) {
        Err(e) => {
            let mut msg = owned("Invalid UTF-8 in JSON data: ");
            msg.append(e.as_str());
            Err(msg)
        },
        Ok(text) => match parse_json_text(text.as_str()) {
            Ok(v) => Ok(v),
            Err(e) => {
                let mut msg = owned("Invalid JSON: ");
                msg.append(e.as_str());
                Err(msg)
            },
        },
    }
}

// ---------------------------------------------------------------------------
// Previews of tool results
// ---------------------------------------------------------------------------
/// Whether cutting a long text after 97 bytes lands between two characters;
/// where it does not, the preview cannot be made (slicing there panics).
pub open spec fn clip_defined(s: Seq<char>) -> bool {
    encode_utf8(s).len() > 100 ==> is_char_boundary(encode_utf8(s), 97)
}

/// A text of more than 100 bytes becomes its first 97 bytes and "...".
pub open spec fn clip(s: Seq<char>) -> Seq<char> {
    if encode_utf8(s).len() > 100 {
        decode_utf8(encode_utf8(s).subrange(0, 97)) + "..."@
    } else {
        s
    }
}

/// The text that a preview shows cut to length, where there is one.
pub open spec fn preview_source(v: JsonView) -> Option<Seq<char>> {
    match v {
        JsonView::Str(s) => Some(s),
        JsonView::Object(_) => match json_get_str(v, "text"@) {
            Some(t) => Some(t),
            None => json_get_str(v, "content"@),
        },
        _ => None,
    }
}

/// Whether the preview of `v` can be made.
pub open spec fn preview_defined(v: JsonView) -> bool {
    match preview_source(v) {
        Some(s) => clip_defined(s),
        None => true,
    }
}

/// The one-line preview of a tool result's content.
pub open spec fn tool_result_preview(v: JsonView) -> Seq<char> {
    match v {
        JsonView::Str(s) => clip(s),
        JsonView::Object(fields) => match preview_source(v) {
            Some(t) => clip(t),
            None => "Object with "@ + decimal(fields.len()) + " fields"@,
        },
        JsonView::Array(items) => "Array with "@ + decimal(items.len()) + " items"@,
        JsonView::Number(n) => n,
        JsonView::Bool(b) => if b {
            "true"@
        } else {
            "false"@
        },
        JsonView::Null => "null"@,
    }
}

/// Cuts a text of more than 100 bytes after its first 97 bytes and adds "...".
fn clip_text(s: &str) -> (r: String)
    requires
        clip_defined(s@),
    ensures
        r@ == clip(s@),
{
    let n = s.as_bytes().len();
    assert(n == encode_utf8(s@).len());
    if n > 100 {
        let (head, _tail) = s.split_at(97);
        proof {
            encode_utf8_decode_utf8(head@);
            assert(head.spec_bytes() == encode_utf8(head@));
            assert(encode_utf8(head@) == encode_utf8(s@).subrange(0, 97));
            assert(head@ == decode_utf8(encode_utf8(s@).subrange(0, 97)));
        }
        let mut r = owned(head);
        r.append("...");
        r
    } else {
        owned(s)
    }
}

/// Whether a text can be cut as a preview cuts it, computed.
fn clip_is_defined(s: &str) -> (r: bool)
    ensures
        r == clip_defined(s@),
{
    let n = s.as_bytes().len();
    if n > 100 {
        s.is_char_boundary(97)
    } else {
        true
    }
}

/// Whether the preview of `v` can be made, computed.
pub fn preview_is_defined(v: &JsonValue) -> (r: bool)
    ensures
        r == preview_defined(v@),
{
    match v {
        JsonValue::Str(s) => clip_is_defined(s.as_str()),
        JsonValue::Object(_) => {
            if let Some(JsonValue::Str(t)) = v.get("text") {
                return clip_is_defined(t.as_str());
            }
            if let Some(JsonValue::Str(c)) = v.get("content") {
                return clip_is_defined(c.as_str());
            }
            true
        },
        _ => true,
    }
}

/// Formats a tool result for preview text.
pub fn format_tool_result_preview(content: &JsonValue) -> (r: String)
    requires
        preview_defined(content@),
    ensures
        r@ == tool_result_preview(content@),
{
    match content {
        JsonValue::Str(s) => clip_text(s.as_str()),
        JsonValue::Object(fields) => {
            proof {
                lemma_fields_view(fields@);
            }
            let text = content.get("text");
            if let Some(JsonValue::Str(t)) = text {
                return clip_text(t.as_str());
            }
            let inner = content.get("content");
            if let Some(JsonValue::Str(c)) = inner {
                return clip_text(c.as_str());
            }
            let mut r = owned("Object with ");
            r.append(decimal_text(fields.len()).as_str());
            r.append(" fields");
            r
        },
        JsonValue::Array(items) => {
            proof {
                lemma_items_view(items@);
            }
            let mut r = owned("Array with ");
            r.append(decimal_text(items.len()).as_str());
            r.append(" items");
            r
        },
        JsonValue::Number(n) => n.clone(),
        JsonValue::Bool(b) => if *b {
            owned("true")
        } else {
            owned("false")
        },
        JsonValue::Null => owned("null"),
    }
}

// ---------------------------------------------------------------------------
// Reading message parts for display
// ---------------------------------------------------------------------------
/// A tool call's input as displayed: the JSON document, or an empty object
/// when the bytes are not one.
pub open spec fn tool_input_view(bytes: Seq<u8>) -> JsonView {
    match json_data_parse(bytes) {
        Ok(v) => v,
        Err(_) => JsonView::Object(Seq::empty()),
    }
}

/// A tool result's content as displayed: the JSON document, or a string that
/// tells why the bytes could not be read.
pub open spec fn tool_result_content_view(bytes: Seq<u8>) -> JsonView {
    match json_data_parse(bytes) {
        Ok(v) => v,
        Err(e) => JsonView::Str("Error parsing result: "@ + e),
    }
}

/// The display line of one message part.
pub open spec fn content_line(c: ContentView) -> Seq<char> {
    match c {
        ContentView::Text(t) => t,
        ContentView::ToolUse { name, .. } => "\u{1f527} **Tool Call**: "@ + name,
        ContentView::ToolResult { content, is_error, .. } => (if is_error {
            "\u{274c}"@
        } else {
            "\u{2705}"@
        }) + " **Tool Result**: "@ + tool_result_preview(tool_result_content_view(content)),
    }
}

/// The display lines of a sequence of message parts.
pub open spec fn content_lines(c: Seq<ContentView>) -> Seq<Seq<char>> {
    c.map_values(|x: ContentView| content_line(x))
}

/// The flattened display text of a message: its lines joined by newlines.
pub open spec fn display_text_of(c: Seq<ContentView>) -> Seq<char> {
    join(content_lines(c), "\n"@)
}

/// The tool calls among the parts, read for display, in order.
pub open spec fn rich_tool_uses(c: Seq<ContentView>) -> Seq<RichToolUseView>
    decreases c.len(),
{
    if c.len() == 0 {
        Seq::empty()
    } else {
        let rest = rich_tool_uses(c.drop_last());
        match c.last() {
            ContentView::ToolUse { id, name, input } => rest.push(
                RichToolUseView { id, name, input: tool_input_view(input), status: ToolStatus::Pending },
            ),
            _ => rest,
        }
    }
}

/// The tool results among the parts, read for display, in order.
pub open spec fn rich_tool_results(c: Seq<ContentView>) -> Seq<RichToolResultView>
    decreases c.len(),
{
    if c.len() == 0 {
        Seq::empty()
    } else {
        let rest = rich_tool_results(c.drop_last());
        match c.last() {
            ContentView::ToolResult { tool_use_id, content, is_error } => rest.push(
                RichToolResultView {
                    tool_use_id,
                    content: tool_result_content_view(content),
                    is_error,
                    execution_time_ms: None,
                },
            ),
            _ => rest,
        }
    }
}

/// Whether the preview of this part can be made (always, but for tool results
/// whose text is cut inside a character).
pub open spec fn part_displayable(c: ContentView) -> bool {
    match c {
        ContentView::ToolResult { content, .. } => preview_defined(tool_result_content_view(content)),
        _ => true,
    }
}

/// Whether every part can be displayed.
pub open spec fn parts_displayable(c: Seq<ContentView>) -> bool {
    forall|i: int| 0 <= i < c.len() ==> #[trigger] part_displayable(c[i])
}

/// Reads the parts of a message for display: the flattened text, the tool
/// calls and the tool results.
pub fn extract_enhanced_content(content: &[MessageContent]) -> (r: (String, Vec<RichToolUse>, Vec<RichToolResult>))
    requires
        parts_displayable(contents_view(content@)),
    ensures
        r.0@ == display_text_of(contents_view(content@)),
        tool_uses_view(r.1@) == rich_tool_uses(contents_view(content@)),
        tool_results_view(r.2@) == rich_tool_results(contents_view(content@)),
{
    let ghost c = contents_view(content@);
    let mut lines: Vec<String> = Vec::new();
    let mut tool_uses: Vec<RichToolUse> = Vec::new();
    let mut tool_results: Vec<RichToolResult> = Vec::new();
    let mut i: usize = 0;
    while i < content.len()
        invariant
            i <= content.len(),
            c == contents_view(content@),
            c.len() == content@.len(),
            parts_displayable(c),
            strings_view(lines@) == content_lines(c.take(i as int)),
            tool_uses_view(tool_uses@) == rich_tool_uses(c.take(i as int)),
            tool_results_view(tool_results@) == rich_tool_results(c.take(i as int)),
        decreases content.len() - i,
    {
        let ghost before = c.take(i as int);
        assert(c.take(i + 1).drop_last() =~= before);
        assert(c.take(i + 1).last() == content@[i as int]@);
        assert(part_displayable(c[i as int]));
        let ghost old_lines = lines@;
        match &content[i] {
            MessageContent::Text(text) => {
                lines.push(text.clone());
            },
            MessageContent::ToolUse(tool_use) => {
                let input = match parse_json_data(tool_use.input.as_slice()) {
                    Ok(value) => value,
                    Err(_) => JsonValue::Object(Vec::new()),
                };
                proof {
                    lemma_fields_view(Seq::<(String, JsonValue)>::empty());
                }
                tool_uses.push(
                    RichToolUse {
                        id: tool_use.id.clone(),
                        name: tool_use.name.clone(),
                        input,
                        status: ToolStatus::Pending,
                    },
                );
                let mut line = owned("\u{1f527} **Tool Call**: ");
                line.append(tool_use.name.as_str());
                lines.push(line);
            },
            MessageContent::ToolResult(tool_result) => {
                let parsed = match parse_json_data(tool_result.content.as_slice()) {
                    Ok(value) => value,
                    Err(e) => {
                        let mut msg = owned("Error parsing result: ");
                        msg.append(e.as_str());
                        JsonValue::Str(msg)
                    },
                };
                let preview = format_tool_result_preview(&parsed);
                let mut line = if tool_result.is_error {
                    owned("\u{274c}")
                } else {
                    owned("\u{2705}")
                };
                line.append(" **Tool Result**: ");
                line.append(preview.as_str());
                tool_results.push(
                    RichToolResult {
                        tool_use_id: tool_result.tool_use_id.clone(),
                        content: parsed,
                        is_error: tool_result.is_error,
                        execution_time_ms: None,
                    },
                );
                lines.push(line);
            },
        }
        assert(lines@ == old_lines.push(lines@.last()));
        assert(strings_view(lines@) =~= strings_view(old_lines).push(lines@.last()@));
        assert(content_lines(c.take(i + 1)) =~= content_lines(before).push(content_line(c[i as int])));
        assert(strings_view(lines@) =~= content_lines(c.take(i + 1)));
        assert(tool_uses_view(tool_uses@) =~= rich_tool_uses(c.take(i + 1)));
        assert(tool_results_view(tool_results@) =~= rich_tool_results(c.take(i + 1)));
        i = i + 1;
    }
    assert(c.take(content.len() as int) =~= c);
    let text = join_strings(&lines, "\n");
    (text, tool_uses, tool_results)
}

/// Whether every part of a message can be displayed, computed.
pub fn parts_are_displayable(content: &[MessageContent]) -> (r: bool)
    ensures
        r == parts_displayable(contents_view(content@)),
{
    let ghost c = contents_view(content@);
    let mut i: usize = 0;
    while i < content.len()
        invariant
            i <= content.len(),
            c == contents_view(content@),
            c.len() == content@.len(),
            forall|j: int| 0 <= j < i ==> #[trigger] part_displayable(c[j]),
        decreases content.len() - i,
    {
        match &content[i] {
            MessageContent::ToolResult(tool_result) => {
                let parsed = match parse_json_data(tool_result.content.as_slice()) {
                    Ok(value) => value,
                    Err(e) => {
                        let mut msg = owned("Error parsing result: ");
                        msg.append(e.as_str());
                        JsonValue::Str(msg)
                    },
                };
                if !preview_is_defined(&parsed) {
                    assert(!part_displayable(c[i as int]));
                    return false;
                }
            },
            _ => {},
        }
        assert(part_displayable(c[i as int]));
        i = i + 1;
    }
    true
}

/// The flattened display text of a message's parts.
pub fn extract_text_content(content: &[MessageContent]) -> (r: String)
    requires
        parts_displayable(contents_view(content@)),
    ensures
        r@ == display_text_of(contents_view(content@)),
{
    let (text, _tool_uses, _tool_results) = extract_enhanced_content(content);
    text
}

} // verus!
