//! Laws of the reading of a streamed answer.

use crate::api::{
    chunk_outcome, chunk_view, data_line, done_line, event_views, fails, line_outcome,
    lines_outcome, parses, passes, payload, reads_as, reads_with, stream_step, ChatChunk,
    ChoiceView, ChunkChoice, EventView, Outcome, ReadStep, StreamInput, StreamState, TestStep,
    TranslateEvent,
};
use crate::laws::text::{blank, free_of, lemma_one_line, lemma_trimmed_between};
use crate::text::{decimal, lines_of, trimmed, whitespace};
use vstd::prelude::*;

verus! {

/// The pieces of the translation that `events` report, put together.
pub open spec fn told(events: Seq<TranslateEvent>) -> Seq<char>
    decreases events.len(),
{
    if events.len() == 0 {
        seq![]
    } else {
        told(events.drop_last()) + match events.last() {
            TranslateEvent::Chunk(piece) => piece@,
            _ => Seq::<char>::empty(),
        }
    }
}

/// The contents of `choices`, put together.
pub open spec fn said(choices: Seq<ChunkChoice>) -> Seq<char>
    decreases choices.len(),
{
    if choices.len() == 0 {
        seq![]
    } else {
        said(choices.drop_last()) + match choices.last().delta.content {
            Some(content) => content@,
            None => Seq::<char>::empty(),
        }
    }
}

/// How many of `choices` have a content that is not empty.
pub open spec fn speaking(choices: Seq<ChunkChoice>) -> nat
    decreases choices.len(),
{
    if choices.len() == 0 {
        0
    } else {
        speaking(choices.drop_last()) + match choices.last().delta.content {
            Some(content) => if content@.len() > 0 {
                1nat
            } else {
                0nat
            },
            None => 0nat,
        }
    }
}

/// None of `choices` has a finish reason.
pub open spec fn unfinished(choices: Seq<ChunkChoice>) -> bool {
    forall|i: int| 0 <= i < choices.len() ==> (#[trigger] choices[i]).finish_reason is None
}

/// The contents of an event are its kind and its text.
pub proof fn lemma_event_contents(event: TranslateEvent)
    ensures
        event matches TranslateEvent::Chunk(s) ==> event@ == EventView::Chunk(s@),
        event is Done ==> event@ == EventView::Done,
        event matches TranslateEvent::Error(s) ==> event@ == EventView::Error(s@),
        event@.terminal() <==> event is Done || event is Error,
{
}

/// The contents of events are those of each, in their order.
pub proof fn lemma_event_views(events: Seq<TranslateEvent>)
    ensures
        event_views(events).len() == events.len(),
        forall|i: int| 0 <= i < events.len() ==> #[trigger] event_views(events)[i] == events[i]@,
{
}

/// The pieces among the contents of events, put together.
spec fn tell(events: Seq<EventView>) -> Seq<char>
    decreases events.len(),
{
    if events.len() == 0 {
        seq![]
    } else {
        tell(events.drop_last()) + match events.last() {
            EventView::Chunk(s) => s,
            _ => Seq::<char>::empty(),
        }
    }
}

proof fn lemma_told(events: Seq<TranslateEvent>)
    ensures
        told(events) == tell(event_views(events)),
    decreases events.len(),
{
    if events.len() > 0 {
        assert(event_views(events).drop_last() == event_views(events.drop_last()));
        assert(event_views(events).last() == events.last()@);
        lemma_told(events.drop_last());
    } else {
        assert(event_views(events).len() == 0);
    }
}

proof fn lemma_tell_joined(a: Seq<EventView>, b: Seq<EventView>)
    ensures
        tell(a + b) == tell(a) + tell(b),
    decreases b.len(),
{
    if b.len() == 0 {
        assert(a + b == a);
        assert(tell(a) + Seq::<char>::empty() == tell(a));
    } else {
        assert((a + b).drop_last() == a + b.drop_last());
        assert((a + b).last() == b.last());
        lemma_tell_joined(a, b.drop_last());
        let t = match b.last() {
            EventView::Chunk(s) => s,
            _ => Seq::<char>::empty(),
        };
        assert(tell(a) + tell(b.drop_last()) + t == tell(a) + (tell(b.drop_last()) + t));
    }
}

proof fn lemma_choices_tell(choices: Seq<ChunkChoice>)
    requires
        unfinished(choices),
    ensures
        !chunk_outcome(choices.map_values(|c: ChunkChoice| c@)).done,
        tell(chunk_outcome(choices.map_values(|c: ChunkChoice| c@)).events) == said(choices),
        chunk_outcome(choices.map_values(|c: ChunkChoice| c@)).events.len() == speaking(choices),
    decreases choices.len(),
{
    let all = choices.map_values(|c: ChunkChoice| c@);
    if choices.len() > 0 {
        let before = choices.drop_last();
        assert(unfinished(before));
        assert(all.drop_last() == before.map_values(|c: ChunkChoice| c@));
        assert(all.last() == choices.last()@);
        assert(choices[choices.len() - 1].finish_reason is None);
        lemma_choices_tell(before);
        let o = chunk_outcome(all.drop_last());
        match choices.last().delta.content {
            Some(content) => {
                if content@.len() > 0 {
                    let one = seq![EventView::Chunk(content@)];
                    lemma_tell_joined(o.events, one);
                    assert(one.drop_last() == Seq::<EventView>::empty());
                    assert(tell(one.drop_last()) == Seq::<char>::empty());
                    assert(tell(one) == Seq::<char>::empty() + content@);
                    assert(Seq::<char>::empty() + content@ == content@);
                    assert(chunk_outcome(all).events == o.events + one);
                } else {
                    assert(content@ == Seq::<char>::empty());
                    assert(o.events + Seq::<EventView>::empty() == o.events);
                }
            },
            None => {
                assert(o.events + Seq::<EventView>::empty() == o.events);
            },
        }
    }
}

/// Of a message without a finish reason, the reported pieces put together are the contents put
/// together, character for character: neither whitespace nor anything else is lost or added. There
/// is one piece for each content that is not empty, and the stream goes on.
pub proof fn lemma_message_text(chunk: ChatChunk, step: ReadStep)
    requires
        step@ == chunk_outcome(chunk@),
        unfinished(chunk.choices@),
    ensures
        !step.done,
        told(step.events@) == said(chunk.choices@),
        step.events@.len() == speaking(chunk.choices@),
{
    lemma_choices_tell(chunk.choices@);
    lemma_told(step.events@);
    assert(chunk@ == chunk.choices@.map_values(|c: ChunkChoice| c@));
    assert(event_views(step.events@).len() == step.events@.len());
}

/// A message with one choice that has a content and no finish reason gives rise to exactly that
/// content as a piece.
pub proof fn lemma_message_piece(chunk: ChatChunk, step: ReadStep, content: String)
    requires
        step@ == chunk_outcome(chunk@),
        chunk.choices@.len() == 1,
        chunk.choices@[0].finish_reason is None,
        chunk.choices@[0].delta.content == Some(content),
        content@.len() > 0,
    ensures
        step.events@.len() == 1,
        step.events@[0] matches TranslateEvent::Chunk(piece) && piece@ == content@,
        !step.done,
{
    let cs = chunk@;
    assert(cs.drop_last() == Seq::<ChoiceView>::empty());
    assert(chunk_outcome(cs.drop_last()) == Outcome::nothing());
    assert(cs.last() == chunk.choices@[0]@);
    assert(Seq::<EventView>::empty() + seq![EventView::Chunk(content@)] == seq![
        EventView::Chunk(content@),
    ]);
    assert(event_views(step.events@) == seq![EventView::Chunk(content@)]);
    assert(event_views(step.events@)[0] == step.events@[0]@);
}

proof fn lemma_chunk_joined(a: Seq<ChoiceView>, b: Seq<ChoiceView>)
    requires
        !chunk_outcome(a).done,
    ensures
        chunk_outcome(a + b).events == chunk_outcome(a).events + chunk_outcome(b).events,
        chunk_outcome(a + b).done == chunk_outcome(b).done,
    decreases b.len(),
{
    let oa = chunk_outcome(a);
    if b.len() == 0 {
        assert(a + b == a);
        assert(oa.events + Seq::<EventView>::empty() == oa.events);
    } else {
        assert((a + b).drop_last() == a + b.drop_last());
        assert((a + b).last() == b.last());
        lemma_chunk_joined(a, b.drop_last());
        let ob = chunk_outcome(b.drop_last());
        let o = crate::api::choice_outcome(b.last());
        assert(oa.events + (ob.events + o.events) == (oa.events + ob.events) + o.events);
    }
}

proof fn lemma_rest_ignored(a: Seq<ChoiceView>, b: Seq<ChoiceView>)
    requires
        chunk_outcome(a).done,
    ensures
        chunk_outcome(a + b) == chunk_outcome(a),
    decreases b.len(),
{
    if b.len() == 0 {
        assert(a + b == a);
    } else {
        assert((a + b).drop_last() == a + b.drop_last());
        lemma_rest_ignored(a, b.drop_last());
    }
}

/// The choices of a message are reported one after another, as far as none of them finishes. The
/// first finish reason is reported as the end, whatever content stands beside it, and nothing
/// after it is.
pub proof fn lemma_message_end(
    before: Seq<ChoiceView>,
    finish: ChoiceView,
    after: Seq<ChoiceView>,
)
    requires
        forall|i: int| 0 <= i < before.len() ==> (#[trigger] before[i]).finish_reason is None,
        finish.finish_reason is Some,
    ensures
        !chunk_outcome(before).done,
        chunk_outcome(before + seq![finish] + after).events == chunk_outcome(before).events.push(
            EventView::Done,
        ),
        chunk_outcome(before + seq![finish] + after).done,
{
    lemma_unfinished_goes_on(before);
    let one = seq![finish];
    assert(one.drop_last() == Seq::<ChoiceView>::empty());
    assert(chunk_outcome(one.drop_last()) == Outcome::nothing());
    assert(Seq::<EventView>::empty() + seq![EventView::Done] == seq![EventView::Done]);
    assert(chunk_outcome(one).events == seq![EventView::Done]);
    lemma_chunk_joined(before, one);
    lemma_rest_ignored(before + one, after);
    assert(chunk_outcome(before).events + seq![EventView::Done] == chunk_outcome(
        before,
    ).events.push(EventView::Done));
}

proof fn lemma_unfinished_goes_on(choices: Seq<ChoiceView>)
    requires
        forall|i: int| 0 <= i < choices.len() ==> (#[trigger] choices[i]).finish_reason is None,
    ensures
        !chunk_outcome(choices).done,
    decreases choices.len(),
{
    if choices.len() > 0 {
        assert(choices[choices.len() - 1].finish_reason is None);
        lemma_unfinished_goes_on(choices.drop_last());
    }
}

/// The choices of a message that come one after another are reported one after another.
pub proof fn lemma_messages_in_order(a: Seq<ChoiceView>, b: Seq<ChoiceView>)
    requires
        forall|i: int| 0 <= i < a.len() ==> (#[trigger] a[i]).finish_reason is None,
    ensures
        chunk_outcome(a + b).events == chunk_outcome(a).events + chunk_outcome(b).events,
        chunk_outcome(a + b).done == chunk_outcome(b).done,
{
    lemma_unfinished_goes_on(a);
    lemma_chunk_joined(a, b);
}

/// The parser `parse` gives the answer `f` to a text.
pub open spec fn answers<P: Fn(String) -> Option<ChatChunk>>(
    parse: P,
    f: spec_fn(Seq<char>) -> Option<Seq<ChoiceView>>,
) -> bool {
    forall|json: String, chunk: Option<ChatChunk>| #[trigger]
        parse.ensures((json,), chunk) ==> (match chunk {
            Some(c) => Some(c@),
            None => None,
        }) == f(json@)
}

/// A line by itself is read as what it amounts to.
proof fn lemma_read_one_line<P: Fn(String) -> Option<ChatChunk>>(
    parse: P,
    line: Seq<char>,
    o: Outcome,
) -> (parsed: Option<Seq<ChoiceView>>)
    requires
        reads_as(parse, seq![line], o),
    ensures
        parses(parse, line, parsed),
        o == line_outcome(line, parsed),
{
    let l = seq![line];
    let p = choose|p: Seq<Option<Seq<ChoiceView>>>| reads_with(parse, l, p, o);
    assert(lines_outcome(Seq::<Seq<char>>::empty(), p) == Outcome::nothing());
    if p.len() == 0 {
        assert(l.take(0) == Seq::<Seq<char>>::empty());
        assert(false);
    }
    assert(l.take(1) == l);
    assert(l.drop_last() == Seq::<Seq<char>>::empty());
    assert(lines_outcome(l.drop_last(), p.drop_last()) == Outcome::nothing());
    let lo = line_outcome(line, p[0]);
    assert(Seq::<EventView>::empty() + lo.events == lo.events);
    assert(parses(parse, l[0], p[0]));
    p[0]
}

/// The line that says so ends the stream, whatever whitespace stands round it and whatever the
/// parser is.
pub proof fn lemma_done_line_ends<P: Fn(String) -> Option<ChatChunk>>(
    parse: P,
    w1: Seq<char>,
    w2: Seq<char>,
    o: Outcome,
)
    requires
        blank(w1),
        blank(w2),
        free_of(w1, '\n'),
        free_of(w2, '\n'),
        reads_as(parse, lines_of(w1 + "data: [DONE]"@ + w2), o),
    ensures
        o.done,
        o.events == seq![EventView::Done],
{
    reveal_strlit("data: [DONE]");
    let line = w1 + "data: [DONE]"@ + w2;
    lemma_trimmed_between(w1, "data: [DONE]"@, w2);
    assert forall|i: int| 0 <= i < line.len() implies #[trigger] line[i] != '\n' by {
        if i < w1.len() {
            assert(line[i] == w1[i]);
        } else if i < w1.len() + 12 {
            assert(line[i] == "data: [DONE]"@[i - w1.len()]);
        } else {
            assert(line[i] == w2[i - w1.len() - 12]);
        }
    }
    lemma_one_line(line);
    let parsed = lemma_read_one_line(parse, line, o);
}

/// A line that carries a message, with any whitespace round it, is read as that message: the
/// parser is shown the text behind `data: ` and nothing else, and what it makes out is reported.
/// A message that it cannot make out is passed over.
pub proof fn lemma_data_line_is_read<P: Fn(String) -> Option<ChatChunk>>(
    parse: P,
    f: spec_fn(Seq<char>) -> Option<Seq<ChoiceView>>,
    w1: Seq<char>,
    json: Seq<char>,
    w2: Seq<char>,
    o: Outcome,
)
    requires
        answers(parse, f),
        blank(w1),
        blank(w2),
        free_of(w1, '\n'),
        free_of(json, '\n'),
        free_of(w2, '\n'),
        json.len() > 0,
        !whitespace(json.last()),
        json != "[DONE]"@,
        reads_as(parse, lines_of(w1 + ("data: "@ + json) + w2), o),
    ensures
        f(json) matches Some(choices) ==> o == chunk_outcome(choices),
        f(json) is None ==> o.events.len() == 0 && !o.done,
{
    reveal_strlit("data: ");
    reveal_strlit("[DONE]");
    reveal_strlit("data: [DONE]");
    let t = "data: "@ + json;
    let line = w1 + t + w2;
    lemma_trimmed_between(w1, t, w2);
    assert(t.subrange(0, 6) == "data: "@);
    assert(t.skip(6) == json);
    assert("data: [DONE]"@.skip(6) == "[DONE]"@);
    assert(!done_line(line));
    assert(data_line(line));
    assert(payload(line) == json);
    assert forall|i: int| 0 <= i < line.len() implies #[trigger] line[i] != '\n' by {
        if i < w1.len() {
            assert(line[i] == w1[i]);
        } else if i < w1.len() + 6 {
            assert(line[i] == "data: "@[i - w1.len()]);
        } else if i < w1.len() + t.len() {
            assert(line[i] == json[i - w1.len() - 6]);
        } else {
            assert(line[i] == w2[i - w1.len() - t.len()]);
        }
    }
    lemma_one_line(line);
    let parsed = lemma_read_one_line(parse, line, o);
    let (j, c) = choose|j: String, c: Option<ChatChunk>|
        {
            &&& j@ == payload(line)
            &&& #[trigger] parse.ensures((j,), c)
            &&& parsed == chunk_view(c)
        };
    assert(parsed == f(json));
}

/// A line of any other kind, an empty one among them, gives rise to nothing.
pub proof fn lemma_other_line_is_passed_over<P: Fn(String) -> Option<ChatChunk>>(
    parse: P,
    line: Seq<char>,
    o: Outcome,
)
    requires
        !"data: "@.is_prefix_of(trimmed(line)),
        reads_as(parse, seq![line], o),
    ensures
        o.events.len() == 0,
        !o.done,
{
    reveal_strlit("data: ");
    reveal_strlit("data: [DONE]");
    assert("data: [DONE]"@.subrange(0, 6) == "data: "@);
    let parsed = lemma_read_one_line(parse, line, o);
}

/// The parts of a stream that is cut after a line feed are reported in their order: first all of
/// the one and then all of the other, unless the stream ends in the first.
pub proof fn lemma_parts_in_order<P: Fn(String) -> Option<ChatChunk>>(
    parse: P,
    a: Seq<char>,
    b: Seq<char>,
    oa: Outcome,
    ob: Outcome,
)
    requires
        a.len() > 0 ==> a.last() == '\n',
        reads_as(parse, lines_of(a), oa),
        reads_as(parse, lines_of(b), ob),
    ensures
        oa.done ==> reads_as(parse, lines_of(a + b), oa),
        !oa.done ==> reads_as(
            parse,
            lines_of(a + b),
            Outcome { events: oa.events + ob.events, done: ob.done },
        ),
{
    crate::api::lemma_stream_cut(parse, a, b, oa, ob);
}

/// What a translation reports and where it goes on, for each thing that it can meet with.
pub proof fn lemma_replies<P: Fn(String) -> Option<ChatChunk>>(
    parse: P,
    state: StreamState,
    input: StreamInput,
    events: Seq<EventView>,
    next: StreamState,
)
    requires
        stream_step(parse, state, input, events, next),
    ensures
        state == StreamState::Sending ==> (input matches StreamInput::SendFailed(e) ==> {
            &&& next == StreamState::Closed
            &&& events.len() == 1
            &&& e.connect ==> events[0] == EventView::Error(
                "无法连接到 API 服务器，请检查网络或 Base URL 设置。"@,
            )
            &&& !e.connect && e.timeout ==> events[0] == EventView::Error(
                "请求超时，请稍后重试。"@,
            )
            &&& !e.connect && !e.timeout ==> events[0] == EventView::Error(
                "请求异常: "@ + e.text@,
            )
        }),
        state == StreamState::Sending ==> (input matches StreamInput::Responded(status) ==> {
            &&& events.len() == 0
            &&& 200 <= status < 300 ==> next == StreamState::Reading
            &&& !(200 <= status < 300) ==> next == StreamState::Refused(status)
        }),
        state matches StreamState::Refused(status) ==> (input matches StreamInput::RefusalBody(body)
            ==> {
            &&& next == StreamState::Closed
            &&& events.len() == 1
            &&& events[0] == EventView::Error(
                "API 返回错误 ("@ + decimal(status as nat) + "): "@ + body@,
            )
        }),
        state == StreamState::Reading && input is Cancelled ==> events.len() == 0 && next
            == StreamState::Closed,
        state == StreamState::Reading && input is Ended ==> next == StreamState::Closed
            && events.len() == 1 && events[0] == EventView::Done,
        state == StreamState::Reading ==> (input matches StreamInput::ReadFailed(e) ==> {
            &&& next == StreamState::Closed
            &&& events.len() == 1
            &&& events[0] == EventView::Error("请求异常: "@ + e@)
        }),
        state == StreamState::Reading ==> (input matches StreamInput::Received(bytes) ==> reads_as(
            parse,
            lines_of(crate::api::utf8_lossy(bytes@)),
            Outcome { events, done: next == StreamState::Closed },
        ) && (next == StreamState::Closed || next == StreamState::Reading)),
        state == StreamState::Closed ==> events.len() == 0 && next == StreamState::Closed,
{
}

/// A connection test ends in one way only, with one message only.
pub proof fn lemma_one_verdict(step: TestStep, m: Seq<char>, n: Seq<char>)
    ensures
        passes(step, m) ==> (step matches TestStep::Finished(Ok(s)) && s@ == m),
        fails(step, m) ==> (step matches TestStep::Finished(Err(s)) && s@ == m),
        passes(step, m) && passes(step, n) ==> m == n,
        fails(step, m) && fails(step, n) ==> m == n,
        !(passes(step, m) && fails(step, n)),
{
}

} // verus!
