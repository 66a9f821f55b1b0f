//! Laws of the conversation with the service.

use crate::api::{
    endpoint, refusal, success, test_body, test_failure, translate_body, translate_content,
    translate_failure, SendError,
};
use crate::json::{lemma_quoted_prefix, quoted};
use crate::laws::text::{lemma_quoted_plain, lemma_trailing_run};
use crate::text::decimal;
use vstd::prelude::*;

verus! {

/// The text of a request for a translation: one message of the user with the content, the model,
/// and the wish for a stream.
pub proof fn lemma_translate_body_text(model: Seq<char>, content: Seq<char>)
    ensures
        translate_body(model, content) == "{\"messages\":[{\"content\":"@ + quoted(content)
            + ",\"role\":\"user\"}],\"model\":"@ + quoted(model) + ",\"stream\":true}"@,
{
    reveal_strlit("{\"messages\":");
    reveal_strlit("[{\"content\":");
    reveal_strlit("{\"messages\":[{\"content\":");
    reveal_strlit(",\"role\":\"user\"}]");
    reveal_strlit(",\"model\":");
    reveal_strlit(",\"role\":\"user\"}],\"model\":");
    assert("{\"messages\":"@ + "[{\"content\":"@ == "{\"messages\":[{\"content\":"@);
    assert(",\"role\":\"user\"}]"@ + ",\"model\":"@ == ",\"role\":\"user\"}],\"model\":"@);
    let c = quoted(content);
    let m = quoted(model);
    let tail = ",\"stream\":true}"@;
    assert("{\"messages\":"@ + ("[{\"content\":"@ + c + ",\"role\":\"user\"}]"@) + ",\"model\":"@
        + m + tail == ("{\"messages\":"@ + "[{\"content\":"@) + c + (",\"role\":\"user\"}]"@
        + ",\"model\":"@) + m + tail);
}

/// The text of a request that tries the connection out.
pub proof fn lemma_test_body_text(model: Seq<char>)
    ensures
        test_body(model)
            == "{\"max_tokens\":5,\"messages\":[{\"content\":\"Hi\",\"role\":\"user\"}],\"model\":"@
            + quoted(model) + "}"@,
{
    reveal_strlit("Hi");
    lemma_quoted_plain("Hi"@);
    reveal_strlit("{\"max_tokens\":5,\"messages\":");
    reveal_strlit("[{\"content\":");
    reveal_strlit(",\"role\":\"user\"}]");
    reveal_strlit(",\"model\":");
    reveal_strlit(
        "{\"max_tokens\":5,\"messages\":[{\"content\":\"Hi\",\"role\":\"user\"}],\"model\":",
    );
    let head = "{\"max_tokens\":5,\"messages\":"@ + ("[{\"content\":"@ + quoted("Hi"@)
        + ",\"role\":\"user\"}]"@) + ",\"model\":"@;
    assert(head
        == "{\"max_tokens\":5,\"messages\":[{\"content\":\"Hi\",\"role\":\"user\"}],\"model\":"@);
}

/// The message holds the prompt, two line feeds and the text, all of each and nothing else.
pub proof fn lemma_content_holds_prompt_and_text(prompt: Seq<char>, text: Seq<char>)
    ensures
        translate_content(prompt, text).len() == prompt.len() + 2 + text.len(),
        prompt.is_prefix_of(translate_content(prompt, text)),
        translate_content(prompt, text)[prompt.len() as int] == '\n',
        translate_content(prompt, text)[prompt.len() as int + 1] == '\n',
        translate_content(prompt, text).skip(prompt.len() as int + 2) == text,
{
    reveal_strlit("\n\n");
    let c = translate_content(prompt, text);
    assert(c.subrange(0, prompt.len() as int) == prompt);
    assert(c.skip(prompt.len() as int + 2) == text);
}

/// Requests for different texts under one prompt have different bodies, and so have requests with
/// different prompts of one length, and requests for different models.
pub proof fn lemma_requests_told_apart(
    m1: Seq<char>,
    p1: Seq<char>,
    t1: Seq<char>,
    m2: Seq<char>,
    p2: Seq<char>,
    t2: Seq<char>,
)
    ensures
        p1.len() == p2.len() && (p1 != p2 || t1 != t2) ==> translate_body(
            m1,
            translate_content(p1, t1),
        ) != translate_body(m2, translate_content(p2, t2)),
        m1 != m2 ==> translate_body(m1, translate_content(p1, t1)) != translate_body(
            m2,
            translate_content(p2, t2),
        ),
        m1 != m2 ==> test_body(m1) != test_body(m2),
{
    let c1 = translate_content(p1, t1);
    let c2 = translate_content(p2, t2);
    lemma_content_holds_prompt_and_text(p1, t1);
    lemma_content_holds_prompt_and_text(p2, t2);
    if translate_body(m1, c1) == translate_body(m2, c2) {
        crate::api::lemma_body_tells(m1, c1, m2, c2);
    }
    if test_body(m1) == test_body(m2) {
        lemma_test_body_text(m1);
        lemma_test_body_text(m2);
        let head =
            "{\"max_tokens\":5,\"messages\":[{\"content\":\"Hi\",\"role\":\"user\"}],\"model\":"@;
        assert(test_body(m1).skip(head.len() as int) == quoted(m1) + "}"@);
        assert(test_body(m2).skip(head.len() as int) == quoted(m2) + "}"@);
        lemma_quoted_prefix(m1, "}"@, m2, "}"@);
    }
}

/// Requests go to the configured server: the address without the slashes at its end, and the path
/// of the service after it.
pub proof fn lemma_endpoint_of_the_server(server: Seq<char>, slashes: Seq<char>)
    requires
        server.len() > 0 ==> server.last() != '/',
        forall|i: int| 0 <= i < slashes.len() ==> #[trigger] slashes[i] == '/',
    ensures
        endpoint(server + slashes) == server + "/chat/completions"@,
{
    lemma_trailing_run(server, slashes, '/');
}

/// The answers that grant a request are those with a status code of the two hundreds.
pub proof fn lemma_success_codes(status: u16)
    ensures
        success(status) <==> status / 100 == 2,
{
}

/// The message on a refused request tells the status code and repeats all that the service said.
pub proof fn lemma_refusal_text(status: u16, body: Seq<char>)
    ensures
        refusal(status, body) == "API 返回错误 ("@ + decimal(status as nat) + "): "@ + body,
        refusal(status, body).skip(refusal(status, body).len() - body.len()) == body,
{
    let m = refusal(status, body);
    assert(m.skip(m.len() - body.len()) == body);
}

/// A failed connection is told before a time-out, and a time-out before anything else; of these
/// two the message does not depend on the error's words, and otherwise it repeats them all.
pub proof fn lemma_failure_texts(e: SendError)
    ensures
        e.connect ==> translate_failure(e)
            == "无法连接到 API 服务器，请检查网络或 Base URL 设置。"@,
        e.connect ==> test_failure(e) == "无法连接到服务器，请检查 Base URL。"@,
        !e.connect && e.timeout ==> translate_failure(e) == "请求超时，请稍后重试。"@,
        !e.connect && e.timeout ==> test_failure(e) == "连接超时。"@,
        !e.connect && !e.timeout ==> translate_failure(e) == "请求异常: "@ + e.text@,
        !e.connect && !e.timeout ==> test_failure(e) == "连接失败: "@ + e.text@,
{
}

} // verus!
