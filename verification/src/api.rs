//! The conversation with a chat completion service: what is sent, and what is made of the answer.

use crate::config::opt_view;
use crate::json::{json_string, lemma_quoted_prefix, quoted};
use crate::laws::api::{lemma_test_body_text, lemma_translate_body_text};
use crate::laws::stream::{lemma_message_text, said, told, unfinished};
use crate::text::{
    decimal, decimal_text, joined, lemma_lines_cut, lines, lines_of, same, strip_prefix, trim,
    trim_trailing, trimmed, views, without_trailing,
};
use vstd::prelude::*;
use vstd::utf8::{decode_utf8, valid_utf8};

verus! {

/// What a running translation reports.
#[derive(Debug)]
pub enum TranslateEvent {
    /// A further piece of the translation.
    Chunk(String),
    /// The translation is complete.
    Done,
    /// The translation failed, with a message for the user.
    Error(String),
}

/// The contents of a `TranslateEvent`.
pub enum EventView {
    Chunk(Seq<char>),
    Done,
    Error(Seq<char>),
}

impl View for TranslateEvent {
    type V = EventView;

    open spec fn view(&self) -> EventView {
        match self {
            TranslateEvent::Chunk(s) => EventView::Chunk(s@),
            TranslateEvent::Done => EventView::Done,
            TranslateEvent::Error(s) => EventView::Error(s@),
        }
    }
}

impl Clone for TranslateEvent {
    fn clone(&self) -> (e: Self)
        ensures
            e@ == self@,
    {
        match self {
            TranslateEvent::Chunk(s) => TranslateEvent::Chunk(s.clone()),
            TranslateEvent::Done => TranslateEvent::Done,
            TranslateEvent::Error(s) => TranslateEvent::Error(s.clone()),
        }
    }
}

impl EventView {
    /// No event comes after this one.
    pub open spec fn terminal(self) -> bool {
        !(self is Chunk)
    }
}

impl TranslateEvent {
    /// Whether no event comes after this one.
    pub fn is_terminal(&self) -> (b: bool)
        ensures
            b == self@.terminal(),
    {
        match self {
            TranslateEvent::Chunk(_) => false,
            TranslateEvent::Done => true,
            TranslateEvent::Error(_) => true,
        }
    }
}

/// The contents of a sequence of events.
pub open spec fn event_views(events: Seq<TranslateEvent>) -> Seq<EventView> {
    events.map_values(|e: TranslateEvent| e@)
}

/// What is posted to the service.
#[derive(Debug)]
pub struct ChatRequest {
    pub url: String,
    /// The header `Authorization`.
    pub authorization: String,
    /// The header `Content-Type`.
    pub content_type: String,
    /// The JSON text of the request.
    pub body: String,
    /// After how many seconds the request is given up.
    pub timeout_secs: u64,
}

/// The address that requests are posted to.
pub open spec fn endpoint(base_url: Seq<char>) -> Seq<char> {
    without_trailing(base_url, '/') + "/chat/completions"@
}

/// The JSON text of the one message that says `content`.
pub open spec fn message_json(content: Seq<char>) -> Seq<char> {
    "[{\"content\":"@ + quoted(content) + ",\"role\":\"user\"}]"@
}

/// What the service is told: the prompt, an empty line and the text to translate.
pub open spec fn translate_content(prompt: Seq<char>, text: Seq<char>) -> Seq<char> {
    prompt + "\n\n"@ + text
}

/// The JSON text of a request for a translation, to be answered as a stream.
pub open spec fn translate_body(model: Seq<char>, content: Seq<char>) -> Seq<char> {
    "{\"messages\":"@ + message_json(content) + ",\"model\":"@ + quoted(model)
        + ",\"stream\":true}"@
}

/// The JSON text of a request that only tries the connection out.
pub open spec fn test_body(model: Seq<char>) -> Seq<char> {
    "{\"max_tokens\":5,\"messages\":"@ + message_json("Hi"@) + ",\"model\":"@ + quoted(model)
        + "}"@
}

fn build_endpoint(base_url: &str) -> (url: String)
    ensures
        url@ == endpoint(base_url@),
{
    joined(trim_trailing(base_url, '/').as_str(), "/chat/completions")
}

fn build_message(content: &str) -> (json: String)
    ensures
        json@ == message_json(content@),
{
    let mut json: String = "[{\"content\":".to_owned();
    json.append(json_string(content).as_str());
    json.append(",\"role\":\"user\"}]");
    json
}

/// The request for a translation of `text`.
pub fn translate_request(
    api_key: &str,
    base_url: &str,
    model: &str,
    prompt: &str,
    text: &str,
) -> (request: ChatRequest)
    ensures
        request.url@ == endpoint(base_url@),
        request.authorization@ == "Bearer "@ + api_key@,
        request.content_type@ == "application/json"@,
        request.body@ == translate_body(model@, translate_content(prompt@, text@)),
        request.body@ == "{\"messages\":[{\"content\":"@ + quoted(prompt@ + "\n\n"@ + text@)
            + ",\"role\":\"user\"}],\"model\":"@ + quoted(model@) + ",\"stream\":true}"@,
        request.timeout_secs == 60,
{
    let mut content: String = joined(prompt, "\n\n");
    content.append(text);
    let mut body: String = "{\"messages\":".to_owned();
    body.append(build_message(content.as_str()).as_str());
    body.append(",\"model\":");
    body.append(json_string(model).as_str());
    body.append(",\"stream\":true}");
    proof {
        lemma_translate_body_text(model@, content@);
    }
    ChatRequest {
        url: build_endpoint(base_url),
        authorization: joined("Bearer ", api_key),
        content_type: "application/json".to_owned(),
        body,
        timeout_secs: 60,
    }
}

/// The request that tries the connection out.
pub fn test_request(api_key: &str, base_url: &str, model: &str) -> (request: ChatRequest)
    ensures
        request.url@ == endpoint(base_url@),
        request.authorization@ == "Bearer "@ + api_key@,
        request.content_type@ == "application/json"@,
        request.body@ == test_body(model@),
        request.body@ == "{\"max_tokens\":5,\"messages\":[{\"content\":\"Hi\",\"role\":\"user\"}],\"model\":"@
            + quoted(model@) + "}"@,
        request.timeout_secs == 15,
{
    let mut body: String = "{\"max_tokens\":5,\"messages\":".to_owned();
    body.append(build_message("Hi").as_str());
    body.append(",\"model\":");
    body.append(json_string(model).as_str());
    body.append("}");
    proof {
        lemma_test_body_text(model@);
    }
    ChatRequest {
        url: build_endpoint(base_url),
        authorization: joined("Bearer ", api_key),
        content_type: "application/json".to_owned(),
        body,
        timeout_secs: 15,
    }
}

/// Why a request got no answer.
#[derive(Debug)]
pub struct SendError {
    /// No connection came about.
    pub connect: bool,
    /// The time ran out.
    pub timeout: bool,
    /// The error in words.
    pub text: String,
}

/// Whether an answer with this status code is one that grants the request.
pub open spec fn success(status: u16) -> bool {
    200 <= status < 300
}

/// Whether an answer with this status code is one that grants the request.
pub fn is_success(status: u16) -> (b: bool)
    ensures
        b == success(status),
{
    200 <= status && status < 300
}

/// The message on an answer that refuses the request.
pub open spec fn refusal(status: u16, body: Seq<char>) -> Seq<char> {
    "API 返回错误 ("@ + decimal(status as nat) + "): "@ + body
}

fn refusal_message(status: u16, body: &str) -> (message: String)
    ensures
        message@ == refusal(status, body@),
{
    let mut message: String = "API 返回错误 (".to_owned();
    message.append(decimal_text(status).as_str());
    message.append("): ");
    message.append(body);
    message
}

/// The message on a translation request that got no answer.
pub open spec fn translate_failure(e: SendError) -> Seq<char> {
    if e.connect {
        "无法连接到 API 服务器，请检查网络或 Base URL 设置。"@
    } else if e.timeout {
        "请求超时，请稍后重试。"@
    } else {
        "请求异常: "@ + e.text@
    }
}

fn translate_failure_message(e: &SendError) -> (message: String)
    ensures
        message@ == translate_failure(*e),
{
    if e.connect {
        "无法连接到 API 服务器，请检查网络或 Base URL 设置。".to_owned()
    } else if e.timeout {
        "请求超时，请稍后重试。".to_owned()
    } else {
        joined("请求异常: ", e.text.as_str())
    }
}

/// The message on a connection test that got no answer.
pub open spec fn test_failure(e: SendError) -> Seq<char> {
    if e.connect {
        "无法连接到服务器，请检查 Base URL。"@
    } else if e.timeout {
        "连接超时。"@
    } else {
        "连接失败: "@ + e.text@
    }
}

fn test_failure_message(e: &SendError) -> (message: String)
    ensures
        message@ == test_failure(*e),
{
    if e.connect {
        "无法连接到服务器，请检查 Base URL。".to_owned()
    } else if e.timeout {
        "连接超时。".to_owned()
    } else {
        joined("连接失败: ", e.text.as_str())
    }
}

/// What a connection test meets with.
#[derive(Debug)]
pub enum TestInput {
    /// There is no HTTP client to send the request with, for the reason given.
    ClientFailed(String),
    /// The request got no answer.
    SendFailed(SendError),
    /// The service answered with this status code.
    Responded(u16),
    /// The text of the answer with this status code, which refuses the request.
    Refused(u16, String),
}

/// What a connection test does next.
#[derive(Debug)]
pub enum TestStep {
    /// It reads the text of the answer with this status code.
    ReadBody(u16),
    /// It ends, with a message for the user.
    Finished(Result<String, String>),
}

/// The connection test ends well, with the message `m`.
pub open spec fn passes(step: TestStep, m: Seq<char>) -> bool {
    step matches TestStep::Finished(Ok(s)) && s@ == m
}

/// The connection test ends badly, with the message `m`.
pub open spec fn fails(step: TestStep, m: Seq<char>) -> bool {
    step matches TestStep::Finished(Err(s)) && s@ == m
}

/// What a connection test does about what it met with.
pub fn test_connection(input: TestInput) -> (step: TestStep)
    ensures
        input matches TestInput::ClientFailed(e) ==> fails(step, "构建客户端失败: "@ + e@),
        input matches TestInput::SendFailed(e) ==> fails(step, test_failure(e)),
        input matches TestInput::Responded(status) ==> if success(status) {
            passes(step, "连接成功！API 配置有效。"@)
        } else {
            step == TestStep::ReadBody(status)
        },
        input matches TestInput::Refused(status, body) ==> fails(step, refusal(status, body@)),
{
    match input {
        TestInput::ClientFailed(e) => TestStep::Finished(
            Err(joined("构建客户端失败: ", e.as_str())),
        ),
        TestInput::SendFailed(e) => TestStep::Finished(Err(test_failure_message(&e))),
        TestInput::Responded(status) => if is_success(status) {
            TestStep::Finished(Ok("连接成功！API 配置有效。".to_owned()))
        } else {
            TestStep::ReadBody(status)
        },
        TestInput::Refused(status, body) => TestStep::Finished(
            Err(refusal_message(status, body.as_str())),
        ),
    }
}

/// One message of a streamed answer.
#[derive(Debug)]
pub struct ChatChunk {
    pub choices: Vec<ChunkChoice>,
}

/// One of the alternatives that an answer offers.
#[derive(Debug)]
pub struct ChunkChoice {
    pub delta: Delta,
    /// Why the answer ends here, if it does.
    pub finish_reason: Option<String>,
}

/// What a message adds to an answer.
#[derive(Debug)]
pub struct Delta {
    pub content: Option<String>,
}

/// The contents of a `ChunkChoice`.
pub struct ChoiceView {
    pub content: Option<Seq<char>>,
    pub finish_reason: Option<Seq<char>>,
}

impl View for ChunkChoice {
    type V = ChoiceView;

    open spec fn view(&self) -> ChoiceView {
        ChoiceView {
            content: opt_view(self.delta.content),
            finish_reason: opt_view(self.finish_reason),
        }
    }
}

impl View for ChatChunk {
    type V = Seq<ChoiceView>;

    open spec fn view(&self) -> Seq<ChoiceView> {
        self.choices@.map_values(|c: ChunkChoice| c@)
    }
}

/// What a part of a stream amounts to: the events in their order, and whether the stream ends
/// there.
pub struct Outcome {
    pub events: Seq<EventView>,
    pub done: bool,
}

impl Outcome {
    /// Of a part that holds nothing.
    pub open spec fn nothing() -> Outcome {
        Outcome { events: seq![], done: false }
    }

    /// Of a part that ends the stream.
    pub open spec fn ended() -> Outcome {
        Outcome { events: seq![EventView::Done], done: true }
    }

    /// Of one part after another; nothing is read beyond the end of the stream.
    pub open spec fn and_then(self, next: Outcome) -> Outcome {
        if self.done {
            self
        } else {
            Outcome { events: self.events + next.events, done: next.done }
        }
    }
}

/// A finish reason ends the stream; otherwise a content that is not empty is a piece of the
/// translation.
pub open spec fn choice_outcome(choice: ChoiceView) -> Outcome {
    if choice.finish_reason is Some {
        Outcome::ended()
    } else if choice.content is Some && choice.content->0.len() > 0 {
        Outcome { events: seq![EventView::Chunk(choice.content->0)], done: false }
    } else {
        Outcome::nothing()
    }
}

/// What a message amounts to: its choices, one after another.
pub open spec fn chunk_outcome(choices: Seq<ChoiceView>) -> Outcome
    decreases choices.len(),
{
    if choices.len() == 0 {
        Outcome::nothing()
    } else {
        chunk_outcome(choices.drop_last()).and_then(choice_outcome(choices.last()))
    }
}

/// A line, without the whitespace round it, that says that the stream ends.
pub open spec fn done_line(line: Seq<char>) -> bool {
    trimmed(line) == "data: [DONE]"@
}

/// A line, without the whitespace round it, that carries a message.
pub open spec fn data_line(line: Seq<char>) -> bool {
    !done_line(line) && "data: "@.is_prefix_of(trimmed(line))
}

/// The JSON text of the message that a line carries.
pub open spec fn payload(line: Seq<char>) -> Seq<char> {
    trimmed(line).skip("data: "@.len() as int)
}

/// What a line amounts to, where `parsed` is the message that it carries, if it carries one that
/// could be made out.
pub open spec fn line_outcome(line: Seq<char>, parsed: Option<Seq<ChoiceView>>) -> Outcome {
    if done_line(line) {
        Outcome::ended()
    } else if data_line(line) && parsed is Some {
        chunk_outcome(parsed->0)
    } else {
        Outcome::nothing()
    }
}

/// What the lines of a text amount to, one after another.
pub open spec fn lines_outcome(
    lines: Seq<Seq<char>>,
    parsed: Seq<Option<Seq<ChoiceView>>>,
) -> Outcome
    decreases lines.len(),
{
    if lines.len() == 0 {
        Outcome::nothing()
    } else {
        lines_outcome(lines.drop_last(), parsed.drop_last()).and_then(
            line_outcome(lines.last(), parsed.last()),
        )
    }
}

/// The contents of an optional message.
pub open spec fn chunk_view(chunk: Option<ChatChunk>) -> Option<Seq<ChoiceView>> {
    match chunk {
        Some(c) => Some(c@),
        None => None,
    }
}

/// `parsed` is an answer of the parser `parse` to the JSON text that `line` carries. A line that
/// carries none is not shown to the parser.
pub open spec fn parses<P: Fn(String) -> Option<ChatChunk>>(
    parse: P,
    line: Seq<char>,
    parsed: Option<Seq<ChoiceView>>,
) -> bool {
    if data_line(line) {
        exists|json: String, chunk: Option<ChatChunk>|
            {
                &&& json@ == payload(line)
                &&& #[trigger] parse.ensures((json,), chunk)
                &&& parsed == chunk_view(chunk)
            }
    } else {
        parsed is None
    }
}

/// `outcome` is what the lines amount to when the parser `parse` gives the answers `parsed`, line
/// by line until the stream ends.
pub open spec fn reads_with<P: Fn(String) -> Option<ChatChunk>>(
    parse: P,
    lines: Seq<Seq<char>>,
    parsed: Seq<Option<Seq<ChoiceView>>>,
    outcome: Outcome,
) -> bool {
    &&& parsed.len() <= lines.len()
    &&& forall|i: int| 0 <= i < parsed.len() ==> parses(parse, lines[i], #[trigger] parsed[i])
    &&& outcome == lines_outcome(lines.take(parsed.len() as int), parsed)
    &&& outcome.done || parsed.len() == lines.len()
}

/// `outcome` is what the lines amount to with the parser `parse`.
pub open spec fn reads_as<P: Fn(String) -> Option<ChatChunk>>(
    parse: P,
    lines: Seq<Seq<char>>,
    outcome: Outcome,
) -> bool {
    exists|parsed: Seq<Option<Seq<ChoiceView>>>|
        #[trigger] reads_with(parse, lines, parsed, outcome)
}

/// The events that a part of a stream gives rise to, and whether the stream ends there.
#[derive(Debug)]
pub struct ReadStep {
    pub events: Vec<TranslateEvent>,
    pub done: bool,
}

impl View for ReadStep {
    type V = Outcome;

    open spec fn view(&self) -> Outcome {
        Outcome { events: event_views(self.events@), done: self.done }
    }
}

/// What the message `chunk` gives rise to.
pub fn read_chunk(chunk: ChatChunk) -> (step: ReadStep)
    ensures
        step@ == chunk_outcome(chunk@),
        unfinished(chunk.choices@) ==> !step.done && told(step.events@) == said(chunk.choices@),
{
    let mut events: Vec<TranslateEvent> = Vec::new();
    let mut i: usize = 0;
    assert(event_views(events@) == Seq::<EventView>::empty());
    while i < chunk.choices.len()
        invariant
            i <= chunk.choices.len(),
            chunk_outcome(chunk@.take(i as int)) == (Outcome {
                events: event_views(events@),
                done: false,
            }),
        decreases chunk.choices.len() - i,
    {
        let choice: &ChunkChoice = &chunk.choices[i];
        let ghost before = events@;
        proof {
            assert(chunk@.take(i + 1).drop_last() == chunk@.take(i as int));
            assert(chunk@.take(i + 1).last() == choice@);
        }
        if choice.finish_reason.is_some() {
            events.push(TranslateEvent::Done);
            proof {
                assert(event_views(events@) == event_views(before) + seq![EventView::Done]);
                lemma_done_early(chunk@, i + 1);
            }
            return ReadStep { events, done: true };
        }
        if let Some(content) = &choice.delta.content {
            if !content.as_str().is_empty() {
                events.push(TranslateEvent::Chunk(content.clone()));
                assert(event_views(events@) == event_views(before) + seq![
                    EventView::Chunk(content@),
                ]);
            }
        }
        assert(event_views(before) + Seq::<EventView>::empty() == event_views(before));
        i += 1;
    }
    assert(chunk@.take(i as int) == chunk@);
    let step: ReadStep = ReadStep { events, done: false };
    proof {
        if unfinished(chunk.choices@) {
            lemma_message_text(chunk, step);
        }
    }
    step
}

/// Once the stream has ended within the first `n` choices, the others do not matter.
proof fn lemma_done_early(choices: Seq<ChoiceView>, n: int)
    requires
        0 <= n <= choices.len(),
        chunk_outcome(choices.take(n)).done,
    ensures
        chunk_outcome(choices) == chunk_outcome(choices.take(n)),
    decreases choices.len(),
{
    if n == choices.len() {
        assert(choices.take(n) == choices);
    } else {
        assert(choices.drop_last().take(n) == choices.take(n));
        lemma_done_early(choices.drop_last(), n);
    }
}

/// What the text `text`, a part of the stream, gives rise to. The messages in it are made out by
/// `parse`; those that it cannot make out are passed over.
pub fn read_text<P: Fn(String) -> Option<ChatChunk>>(text: &str, parse: P) -> (step: ReadStep)
    requires
        forall|json: String| parse.requires((json,)),
    ensures
        reads_as(parse, lines_of(text@), step@),
{
    let all: Vec<String> = lines(text);
    let mut events: Vec<TranslateEvent> = Vec::new();
    let mut i: usize = 0;
    let ghost mut parsed: Seq<Option<Seq<ChoiceView>>> = seq![];
    proof {
        assert(event_views(events@) == Seq::<EventView>::empty());
    }
    while i < all.len()
        invariant
            i <= all.len(),
            views(all@) == lines_of(text@),
            forall|json: String| parse.requires((json,)),
            parsed.len() == i,
            forall|k: int|
                0 <= k < i ==> parses(parse, lines_of(text@)[k], #[trigger] parsed[k]),
            lines_outcome(lines_of(text@).take(i as int), parsed) == (Outcome {
                events: event_views(events@),
                done: false,
            }),
        decreases all.len() - i,
    {
        let ghost line = lines_of(text@)[i as int];
        let ghost before = events@;
        let ghost parsed_before = parsed;
        assert(views(all@)[i as int] == all@[i as int]@);
        proof {
            assert(lines_of(text@).take(i + 1).drop_last() == lines_of(text@).take(i as int));
            assert(lines_of(text@).take(i + 1).last() == line);
        }
        let content: String = trim(all[i].as_str());
        if same(content.as_str(), "data: [DONE]") {
            events.push(TranslateEvent::Done);
            let step: ReadStep = ReadStep { events, done: true };
            proof {
                parsed = parsed.push(None);
                assert(parsed.drop_last() == parsed_before);
                assert(step@.events == event_views(before) + seq![EventView::Done]);
                assert(reads_with(parse, lines_of(text@), parsed, step@));
            }
            return step;
        }
        let chunk: Option<ChatChunk> = match strip_prefix(content.as_str(), "data: ") {
            Some(json) => parse(json),
            None => None,
        };
        proof {
            parsed = parsed.push(chunk_view(chunk));
            assert(parsed.drop_last() == parsed_before);
            assert(parses(parse, line, parsed[i as int]));
        }
        if let Some(chunk) = chunk {
            let mut part: ReadStep = read_chunk(chunk);
            let ghost added = part.events@;
            events.append(&mut part.events);
            assert(event_views(events@) == event_views(before) + event_views(added));
            if part.done {
                let step: ReadStep = ReadStep { events, done: true };
                assert(reads_with(parse, lines_of(text@), parsed, step@));
                return step;
            }
        }
        assert(event_views(before) + Seq::<EventView>::empty() == event_views(before));
        i += 1;
    }
    let step: ReadStep = ReadStep { events, done: false };
    assert(reads_with(parse, lines_of(text@), parsed, step@));
    step
}

/// The text of `bytes`, which are meant as UTF-8, with replacement characters where they are not.
pub uninterp spec fn utf8_lossy(bytes: Seq<u8>) -> Seq<char>;

/// `String::from_utf8_lossy` of std. It gives the characters that the bytes encode, and puts
/// U+FFFD in the place of what is not valid UTF-8. Where the replacement characters go is only
/// named here; of bytes that are valid UTF-8 the text is said to be the one that they encode.
#[verifier::external_body]
fn text_of_bytes(bytes: &Vec<u8>) -> (text: String)
    ensures
        text@ == utf8_lossy(bytes@),
        valid_utf8(bytes@) ==> text@ == decode_utf8(bytes@),
{
    String::from_utf8_lossy(bytes).into_owned()
}

/// How far a translation has come.
#[derive(Debug, Clone, Copy, PartialEq, Eq, Structural)]
pub enum StreamState {
    /// The request is sent and not yet answered.
    Sending,
    /// The answer, with this status code, refuses the request; its text is to be read.
    Refused(u16),
    /// The answer is being read as a stream.
    Reading,
    /// There is nothing more to do.
    Closed,
}

/// What a translation meets with.
#[derive(Debug)]
pub enum StreamInput {
    /// The request got no answer.
    SendFailed(SendError),
    /// The service answered with this status code.
    Responded(u16),
    /// The text of an answer that refuses the request.
    RefusalBody(String),
    /// The user gave the translation up.
    Cancelled,
    /// The stream is over.
    Ended,
    /// The stream broke off, with the error in words.
    ReadFailed(String),
    /// A part of the stream.
    Received(Vec<u8>),
}

/// What a translation does about something that it met with.
#[derive(Debug)]
pub struct StreamStep {
    /// How far it has come then.
    pub state: StreamState,
    /// What it reports.
    pub events: Vec<TranslateEvent>,
}

/// In the state `state` and on the input `input`, a translation reports `events` and goes on to
/// the state `next`. An input that does not belong to the state changes nothing.
pub open spec fn stream_step<P: Fn(String) -> Option<ChatChunk>>(
    parse: P,
    state: StreamState,
    input: StreamInput,
    events: Seq<EventView>,
    next: StreamState,
) -> bool {
    match (state, input) {
        (StreamState::Sending, StreamInput::SendFailed(e)) => {
            &&& events == seq![EventView::Error(translate_failure(e))]
            &&& next == StreamState::Closed
        },
        (StreamState::Sending, StreamInput::Responded(status)) => {
            &&& events == Seq::<EventView>::empty()
            &&& next == if success(status) {
                StreamState::Reading
            } else {
                StreamState::Refused(status)
            }
        },
        (StreamState::Refused(status), StreamInput::RefusalBody(body)) => {
            &&& events == seq![EventView::Error(refusal(status, body@))]
            &&& next == StreamState::Closed
        },
        (StreamState::Reading, StreamInput::Cancelled) => {
            &&& events == Seq::<EventView>::empty()
            &&& next == StreamState::Closed
        },
        (StreamState::Reading, StreamInput::Ended) => {
            &&& events == seq![EventView::Done]
            &&& next == StreamState::Closed
        },
        (StreamState::Reading, StreamInput::ReadFailed(e)) => {
            &&& events == seq![EventView::Error("请求异常: "@ + e@)]
            &&& next == StreamState::Closed
        },
        (StreamState::Reading, StreamInput::Received(bytes)) => {
            &&& next == StreamState::Reading || next == StreamState::Closed
            &&& reads_as(
                parse,
                lines_of(utf8_lossy(bytes@)),
                Outcome { events, done: next == StreamState::Closed },
            )
        },
        _ => {
            &&& events == Seq::<EventView>::empty()
            &&& next == state
        },
    }
}

fn close_with(event: TranslateEvent) -> (step: StreamStep)
    ensures
        step.state == StreamState::Closed,
        event_views(step.events@) == seq![event@],
{
    let mut events: Vec<TranslateEvent> = Vec::new();
    events.push(event);
    assert(event_views(events@) == seq![event@]);
    StreamStep { state: StreamState::Closed, events }
}

fn go_to(state: StreamState) -> (step: StreamStep)
    ensures
        step.state == state,
        event_views(step.events@) == Seq::<EventView>::empty(),
{
    let events: Vec<TranslateEvent> = Vec::new();
    assert(event_views(events@) == Seq::<EventView>::empty());
    StreamStep { state, events }
}

/// One step of a translation: what it does in the state `state` about `input`. The messages of
/// the stream are made out by `parse`.
pub fn translate_stream<P: Fn(String) -> Option<ChatChunk>>(
    state: StreamState,
    input: StreamInput,
    parse: P,
) -> (step: StreamStep)
    requires
        forall|json: String| parse.requires((json,)),
    ensures
        stream_step(parse, state, input, event_views(step.events@), step.state),
        state == StreamState::Reading ==> (input matches StreamInput::Received(bytes)
            ==> valid_utf8(bytes@) ==> reads_as(
            parse,
            lines_of(decode_utf8(bytes@)),
            Outcome {
                events: event_views(step.events@),
                done: step.state == StreamState::Closed,
            },
        )),
{
    match (state, input) {
        (StreamState::Sending, StreamInput::SendFailed(e)) => close_with(
            TranslateEvent::Error(translate_failure_message(&e)),
        ),
        (StreamState::Sending, StreamInput::Responded(status)) => if is_success(status) {
            go_to(StreamState::Reading)
        } else {
            go_to(StreamState::Refused(status))
        },
        (StreamState::Refused(status), StreamInput::RefusalBody(body)) => close_with(
            TranslateEvent::Error(refusal_message(status, body.as_str())),
        ),
        (StreamState::Reading, StreamInput::Cancelled) => go_to(StreamState::Closed),
        (StreamState::Reading, StreamInput::Ended) => close_with(TranslateEvent::Done),
        (StreamState::Reading, StreamInput::ReadFailed(e)) => close_with(
            TranslateEvent::Error(joined("请求异常: ", e.as_str())),
        ),
        (StreamState::Reading, StreamInput::Received(bytes)) => {
            let text: String = text_of_bytes(&bytes);
            let read: ReadStep = read_text(text.as_str(), parse);
            let next: StreamState = if read.done {
                StreamState::Closed
            } else {
                StreamState::Reading
            };
            assert(read@ == (Outcome {
                events: event_views(read.events@),
                done: next == StreamState::Closed,
            }));
            StreamStep { state: next, events: read.events }
        },
        _ => go_to(state),
    }
}

/// Slashes at the end of the base address do not matter.
pub proof fn lemma_endpoint_slash(base_url: Seq<char>)
    ensures
        endpoint(base_url.push('/')) == endpoint(base_url),
{
    assert(base_url.push('/').drop_last() == base_url);
}

/// The request carries the model and the message unaltered: they can be told from its text.
pub proof fn lemma_body_tells(m1: Seq<char>, c1: Seq<char>, m2: Seq<char>, c2: Seq<char>)
    requires
        translate_body(m1, c1) == translate_body(m2, c2),
    ensures
        m1 == m2,
        c1 == c2,
{
    let head = "{\"messages\":"@ + "[{\"content\":"@;
    let between = ",\"role\":\"user\"}]"@ + ",\"model\":"@;
    let tail = ",\"stream\":true}"@;
    let x1 = between + (quoted(m1) + tail);
    let x2 = between + (quoted(m2) + tail);
    assert(translate_body(m1, c1) == head + (quoted(c1) + x1));
    assert(translate_body(m2, c2) == head + (quoted(c2) + x2));
    assert(quoted(c1) + x1 == translate_body(m1, c1).skip(head.len() as int));
    assert(quoted(c2) + x2 == translate_body(m2, c2).skip(head.len() as int));
    lemma_quoted_prefix(c1, x1, c2, x2);
    assert(quoted(m1) + tail == x1.skip(between.len() as int));
    assert(quoted(m2) + tail == x2.skip(between.len() as int));
    lemma_quoted_prefix(m1, tail, m2, tail);
}

/// The events are pieces of the translation that are not empty, and after them `Done` if the
/// stream ends.
pub open spec fn tidy(o: Outcome) -> bool {
    &&& o.done ==> o.events.len() > 0 && o.events.last() == EventView::Done
    &&& forall|i: int|
        0 <= i < o.events.len() - (if o.done {
            1int
        } else {
            0int
        }) ==> ((#[trigger] o.events[i]) matches EventView::Chunk(s) && s.len() > 0)
}

proof fn lemma_tidy_chunk(choices: Seq<ChoiceView>)
    ensures
        tidy(chunk_outcome(choices)),
    decreases choices.len(),
{
    if choices.len() > 0 {
        lemma_tidy_chunk(choices.drop_last());
    }
}

/// Whatever the lines of a text hold, they give rise to pieces of the translation that are not
/// empty, followed by `Done` exactly if the stream ends in them.
pub proof fn lemma_lines_tidy(lines: Seq<Seq<char>>, parsed: Seq<Option<Seq<ChoiceView>>>)
    ensures
        tidy(lines_outcome(lines, parsed)),
    decreases lines.len(),
{
    if lines.len() > 0 {
        lemma_lines_tidy(lines.drop_last(), parsed.drop_last());
        if parsed.last() is Some {
            lemma_tidy_chunk(parsed.last()->0);
        }
    }
}

/// Every event but the last is a piece of the translation, and no piece is empty.
pub open spec fn orderly(events: Seq<EventView>) -> bool {
    &&& forall|i: int| 0 <= i < events.len() - 1 ==> (#[trigger] events[i]) is Chunk
    &&& forall|i: int|
        0 <= i < events.len() ==> ((#[trigger] events[i]) matches EventView::Chunk(s) ==> s.len()
            > 0)
}

/// The events end in one after which none comes.
pub open spec fn concluded(events: Seq<EventView>) -> bool {
    events.len() > 0 && events.last().terminal()
}

/// A single step reports in order. It concludes only by closing the translation, and it closes
/// the translation only with a conclusion or because the user gave it up.
pub proof fn lemma_step_orderly<P: Fn(String) -> Option<ChatChunk>>(
    parse: P,
    state: StreamState,
    input: StreamInput,
    events: Seq<EventView>,
    next: StreamState,
)
    requires
        stream_step(parse, state, input, events, next),
    ensures
        orderly(events),
        state == StreamState::Closed ==> events.len() == 0 && next == StreamState::Closed,
        concluded(events) ==> next == StreamState::Closed,
        state != StreamState::Closed && next == StreamState::Closed ==> concluded(events)
            || input is Cancelled,
{
    if state == StreamState::Reading && input is Received {
        let lines = lines_of(utf8_lossy(input->Received_0@));
        let o = Outcome { events, done: next == StreamState::Closed };
        let parsed = choose|parsed: Seq<Option<Seq<ChoiceView>>>| reads_with(parse, lines, parsed, o);
        lemma_lines_tidy(lines.take(parsed.len() as int), parsed);
        assert(tidy(o));
    }
}

/// A request that the service refuses ends in one error, which tells the status code and what
/// the service said.
pub proof fn lemma_refusal_is_told<P: Fn(String) -> Option<ChatChunk>>(
    parse: P,
    status: u16,
    body: String,
    first: Seq<EventView>,
    middle: StreamState,
    second: Seq<EventView>,
    end: StreamState,
)
    requires
        !success(status),
        stream_step(parse, StreamState::Sending, StreamInput::Responded(status), first, middle),
        stream_step(parse, middle, StreamInput::RefusalBody(body), second, end),
    ensures
        first + second == seq![EventView::Error(refusal(status, body@))],
        end == StreamState::Closed,
{
}

/// One step of a translation as it was taken.
pub struct Taken {
    pub input: StreamInput,
    pub events: Seq<EventView>,
    pub next: StreamState,
}

/// The state that a translation is in after the steps `steps`.
pub open spec fn state_after(steps: Seq<Taken>) -> StreamState {
    if steps.len() == 0 {
        StreamState::Sending
    } else {
        steps.last().next
    }
}

/// The steps `steps` are taken in turn, beginning with the sending of the request.
pub open spec fn is_run<P: Fn(String) -> Option<ChatChunk>>(parse: P, steps: Seq<Taken>) -> bool
    decreases steps.len(),
{
    steps.len() > 0 ==> {
        &&& is_run(parse, steps.drop_last())
        &&& stream_step(
            parse,
            state_after(steps.drop_last()),
            steps.last().input,
            steps.last().events,
            steps.last().next,
        )
    }
}

/// All that a translation reported.
pub open spec fn reported(steps: Seq<Taken>) -> Seq<EventView>
    decreases steps.len(),
{
    if steps.len() == 0 {
        seq![]
    } else {
        reported(steps.drop_last()) + steps.last().events
    }
}

/// The user gave the translation up at some step.
pub open spec fn given_up(steps: Seq<Taken>) -> bool {
    exists|i: int| 0 <= i < steps.len() && (#[trigger] steps[i]).input is Cancelled
}

/// Over its whole course a translation reports pieces that are not empty, and then at most one
/// event that concludes it. The conclusion comes only when the translation closes, and a
/// translation that closes has been concluded unless the user gave it up.
pub proof fn lemma_run_orderly<P: Fn(String) -> Option<ChatChunk>>(parse: P, steps: Seq<Taken>)
    requires
        is_run(parse, steps),
    ensures
        orderly(reported(steps)),
        concluded(reported(steps)) ==> state_after(steps) == StreamState::Closed,
        state_after(steps) == StreamState::Closed ==> concluded(reported(steps)) || given_up(
            steps,
        ),
    decreases steps.len(),
{
    if steps.len() > 0 {
        let before = steps.drop_last();
        let last = steps.last();
        lemma_run_orderly(parse, before);
        lemma_step_orderly(parse, state_after(before), last.input, last.events, last.next);
        let a = reported(before);
        let b = last.events;
        if b.len() == 0 {
            assert(a + b == a);
        } else {
            assert((a + b).last() == b.last());
            assert(!concluded(a));
            assert forall|i: int| 0 <= i < (a + b).len() implies (i < (a + b).len() - 1 ==> (
            #[trigger] (a + b)[i]) is Chunk) && ((a + b)[i] matches EventView::Chunk(s) ==> s.len()
                > 0) by {
                if i < a.len() {
                    assert((a + b)[i] == a[i]);
                } else {
                    assert((a + b)[i] == b[i - a.len()]);
                }
            }
        }
        if given_up(before) {
            let i = choose|i: int| 0 <= i < before.len() && (#[trigger] before[i]).input is Cancelled;
            assert(steps[i] == before[i]);
        }
        if last.input is Cancelled {
            assert(steps[steps.len() - 1].input is Cancelled);
        }
    }
}

proof fn lemma_lines_outcome_joined(
    la: Seq<Seq<char>>,
    pa: Seq<Option<Seq<ChoiceView>>>,
    lb: Seq<Seq<char>>,
    pb: Seq<Option<Seq<ChoiceView>>>,
)
    requires
        la.len() == pa.len(),
        lb.len() == pb.len(),
    ensures
        lines_outcome(la + lb, pa + pb) == lines_outcome(la, pa).and_then(lines_outcome(lb, pb)),
    decreases lb.len(),
{
    let oa = lines_outcome(la, pa);
    if lb.len() == 0 {
        assert(la + lb == la);
        assert(pa + pb == pa);
        assert(oa.events + Seq::<EventView>::empty() == oa.events);
    } else {
        assert((la + lb).drop_last() == la + lb.drop_last());
        assert((pa + pb).drop_last() == pa + pb.drop_last());
        lemma_lines_outcome_joined(la, pa, lb.drop_last(), pb.drop_last());
        let ob = lines_outcome(lb.drop_last(), pb.drop_last());
        let o = line_outcome(lb.last(), pb.last());
        assert(oa.events + (ob.events + o.events) == (oa.events + ob.events) + o.events);
    }
}

/// Where the stream is cut does not matter as long as it is cut after a line feed: the parts,
/// read one after another, amount to what they amount to in one piece.
pub proof fn lemma_stream_cut<P: Fn(String) -> Option<ChatChunk>>(
    parse: P,
    a: Seq<char>,
    b: Seq<char>,
    oa: Outcome,
    ob: Outcome,
)
    requires
        a.len() > 0 ==> a.last() == '\n',
        reads_as(parse, lines_of(a), oa),
        reads_as(parse, lines_of(b), ob),
    ensures
        reads_as(parse, lines_of(a + b), oa.and_then(ob)),
{
    lemma_lines_cut(a, b);
    let la = lines_of(a);
    let lb = lines_of(b);
    let l = lines_of(a + b);
    let pa = choose|parsed: Seq<Option<Seq<ChoiceView>>>| reads_with(parse, la, parsed, oa);
    let pb = choose|parsed: Seq<Option<Seq<ChoiceView>>>| reads_with(parse, lb, parsed, ob);
    if oa.done {
        assert(l.take(pa.len() as int) == la.take(pa.len() as int));
        assert forall|i: int| 0 <= i < pa.len() implies parses(
            parse,
            l[i],
            #[trigger] pa[i],
        ) by {
            assert(l[i] == la[i]);
        }
        assert(reads_with(parse, l, pa, oa.and_then(ob)));
    } else {
        let p = pa + pb;
        lemma_lines_outcome_joined(la, pa, lb.take(pb.len() as int), pb);
        assert(la.take(pa.len() as int) == la);
        assert(l.take(p.len() as int) == la + lb.take(pb.len() as int));
        assert forall|i: int| 0 <= i < p.len() implies parses(parse, l[i], #[trigger] p[i]) by {
            if i < pa.len() {
                assert(l[i] == la[i] && p[i] == pa[i]);
            } else {
                assert(l[i] == lb[i - la.len()] && p[i] == pb[i - pa.len()]);
            }
        }
        assert(reads_with(parse, l, p, oa.and_then(ob)));
    }
}

proof fn lemma_lines_done_early(
    lines: Seq<Seq<char>>,
    parsed: Seq<Option<Seq<ChoiceView>>>,
    n: int,
)
    requires
        0 <= n <= lines.len() == parsed.len(),
        lines_outcome(lines.take(n), parsed.take(n)).done,
    ensures
        lines_outcome(lines, parsed) == lines_outcome(lines.take(n), parsed.take(n)),
    decreases lines.len(),
{
    if n == lines.len() {
        assert(lines.take(n) == lines);
        assert(parsed.take(n) == parsed);
    } else {
        assert(lines.drop_last().take(n) == lines.take(n));
        assert(parsed.drop_last().take(n) == parsed.take(n));
        lemma_lines_done_early(lines.drop_last(), parsed.drop_last(), n);
    }
}

/// The parser always gives the same answer to the same text.
pub open spec fn consistent<P: Fn(String) -> Option<ChatChunk>>(parse: P) -> bool {
    forall|j1: String, c1: Option<ChatChunk>, j2: String, c2: Option<ChatChunk>|
        #[trigger] parse.ensures((j1,), c1) && #[trigger] parse.ensures((j2,), c2) && j1@ == j2@
            ==> chunk_view(c1) == chunk_view(c2)
}

proof fn lemma_parsed_agree<P: Fn(String) -> Option<ChatChunk>>(
    parse: P,
    lines: Seq<Seq<char>>,
    p1: Seq<Option<Seq<ChoiceView>>>,
    o1: Outcome,
    p2: Seq<Option<Seq<ChoiceView>>>,
    o2: Outcome,
)
    requires
        consistent(parse),
        reads_with(parse, lines, p1, o1),
        reads_with(parse, lines, p2, o2),
        p1.len() <= p2.len(),
    ensures
        o1 == o2,
{
    let n = p1.len() as int;
    let m = p2.len() as int;
    assert forall|i: int| 0 <= i < n implies p1[i] == p2[i] by {
        assert(parses(parse, lines[i], p1[i]));
        assert(parses(parse, lines[i], p2[i]));
    }
    assert(p2.take(n) == p1);
    assert(lines.take(m).take(n) == lines.take(n));
    if n == m {
        assert(p2.take(n) == p2);
    } else {
        lemma_lines_done_early(lines.take(m), p2, n);
    }
}

/// With a parser that always gives the same answer to the same text, a text amounts to one thing
/// only.
pub proof fn lemma_reading_determined<P: Fn(String) -> Option<ChatChunk>>(
    parse: P,
    lines: Seq<Seq<char>>,
    o1: Outcome,
    o2: Outcome,
)
    requires
        consistent(parse),
        reads_as(parse, lines, o1),
        reads_as(parse, lines, o2),
    ensures
        o1 == o2,
{
    let p1 = choose|p: Seq<Option<Seq<ChoiceView>>>| reads_with(parse, lines, p, o1);
    let p2 = choose|p: Seq<Option<Seq<ChoiceView>>>| reads_with(parse, lines, p, o2);
    if p1.len() <= p2.len() {
        lemma_parsed_agree(parse, lines, p1, o1, p2, o2);
    } else {
        lemma_parsed_agree(parse, lines, p2, o2, p1, o1);
    }
}

} // verus!
