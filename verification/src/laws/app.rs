//! Laws of the state of the assistant.

use crate::api::EventView;
use crate::app::{
    opt_result_view, trimmed_or, App, AppView, Screen, TestJob, TranslateJob, TranslateState,
};
use crate::config::ConfigView;
use crate::display::{status_tone_of, test_tone_of, Tone};
use crate::laws::text::{
    blank, lemma_trimmed_between, lemma_trimmed_blank,
};
use crate::text::{occurs, trimmed, whitespace};
use vstd::prelude::*;

verus! {

/// The contents of the state are its fields, each for itself.
pub proof fn lemma_app_contents(app: App)
    ensures
        app@.config == app.config@,
        app@.screen == app.screen,
        app@.source_text == app.source_text@,
        app@.target_text == app.target_text@,
        app@.translate_state == app.translate_state,
        app@.status_msg == app.status_msg@,
        app@.stream_open == app.stream_open,
        app@.target_lang_manually_set == app.target_lang_manually_set,
        app@.settings_api_key == app.settings_api_key@,
        app@.settings_base_url == app.settings_base_url@,
        app@.settings_model == app.settings_model@,
        app@.settings_prompt == app.settings_prompt@,
        app@.settings_show_api_key == app.settings_show_api_key,
        app@.settings_test_status == app.settings_test_status@,
        app@.test_open == app.test_open,
{
}

/// The contents of a job are its fields, each for itself.
pub proof fn lemma_job_contents(job: TranslateJob, test: TestJob)
    ensures
        job@.api_key == job.api_key@,
        job@.base_url == job.base_url@,
        job@.model == job.model@,
        job@.prompt == job.prompt@,
        job@.text == job.text@,
        job@.stored == job.stored@,
        test@.api_key == test.api_key@,
        test@.base_url == test.base_url@,
        test@.model == test.model@,
{
}

/// The contents of a result are whether it is good and its whole message.
pub proof fn lemma_result_contents(r: Option<Result<String, String>>)
    ensures
        r matches Some(Ok(m)) ==> opt_result_view(r) == Some(
            Ok::<Seq<char>, Seq<char>>(m@),
        ),
        r matches Some(Err(m)) ==> opt_result_view(r) == Some(
            Err::<Seq<char>, Seq<char>>(m@),
        ),
        r is None ==> opt_result_view(r) is None,
{
}

/// On start the assistant is idle, with the configuration as it was loaded, no text, and the
/// settings filled in from the configuration.
pub proof fn lemma_start_state(config: ConfigView)
    ensures
        ({
            let s = AppView::initial(config);
            &&& s.config == config
            &&& s.screen == Screen::Main
            &&& s.translate_state == TranslateState::Idle
            &&& !s.stream_open && !s.test_open && !s.target_lang_manually_set
            &&& !s.settings_show_api_key
            &&& s.source_text.len() == 0 && s.target_text.len() == 0
            &&& s.settings_test_status.len() == 0
            &&& s.status_msg == "就绪"@
            &&& s.settings_api_key == config.api_key
            &&& s.settings_base_url == config.base_url
            &&& s.settings_model == config.model
            &&& s.settings_prompt == config.system_prompt
        }),
{
}

/// A translation can start exactly if there is something other than whitespace to translate, and
/// a key that is something other than whitespace; a test needs only such a key in the settings.
pub proof fn lemma_what_it_takes(s: AppView)
    ensures
        s.can_start() <==> !blank(s.source_text) && !blank(s.config.api_key),
        s.can_test() <==> !blank(s.settings_api_key),
{
    lemma_trimmed_blank(s.source_text);
    lemma_trimmed_blank(s.config.api_key);
    lemma_trimmed_blank(s.settings_api_key);
}

/// A translation that starts uses the key, the address and the model that were configured, and
/// translates the text that was entered, without the whitespace round it.
pub proof fn lemma_job_is_as_configured(
    s: AppView,
    chinese: bool,
    w1: Seq<char>,
    text: Seq<char>,
    w2: Seq<char>,
)
    requires
        !blank(s.config.api_key),
        s.source_text == w1 + text + w2,
        blank(w1),
        blank(w2),
        text.len() > 0,
        !whitespace(text[0]),
        !whitespace(text.last()),
    ensures
        s.can_start(),
        s.started(chinese).job().api_key == s.config.api_key,
        s.started(chinese).job().base_url == s.config.base_url,
        s.started(chinese).job().model == s.config.model,
        s.started(chinese).job().text == text,
        s.started(chinese).job().stored.api_key == Some(s.config.api_key),
        s.started(chinese).job().stored.base_url == Some(s.config.base_url),
        s.started(chinese).job().stored.model == Some(s.config.model),
        s.started(chinese).job().stored.system_prompt == Some(s.config.system_prompt),
        s.started(chinese).job().stored.target_lang == Some(
            s.started(chinese).config.target_lang,
        ),
        s.started(chinese).job().prompt == (ConfigView {
            target_lang: s.started(chinese).config.target_lang,
            ..s.config
        }).prompt(),
{
    lemma_trimmed_between(w1, text, w2);
    lemma_trimmed_blank(s.config.api_key);
}

/// States that differ in the configured key, address or model start jobs that differ in it.
pub proof fn lemma_jobs_differ(s: AppView, t: AppView, c: bool, d: bool)
    requires
        s.can_start(),
        t.can_start(),
    ensures
        s.config.api_key != t.config.api_key ==> s.started(c).job().api_key != t.started(
            d,
        ).job().api_key,
        s.config.base_url != t.config.base_url ==> s.started(c).job().base_url != t.started(
            d,
        ).job().base_url,
        s.config.model != t.config.model ==> s.started(c).job().model != t.started(d).job().model,
{
}

/// The target language of a translation that starts: the picked one stays, and otherwise English
/// is chosen for a Chinese text and Chinese for any other.
pub proof fn lemma_language_of_a_start(s: AppView, chinese: bool)
    requires
        !blank(s.source_text),
        !blank(s.config.api_key),
    ensures
        s.target_lang_manually_set ==> s.started(chinese).config.target_lang
            == s.config.target_lang,
        !s.target_lang_manually_set && chinese ==> s.started(chinese).config.target_lang
            == "英文"@,
        !s.target_lang_manually_set && !chinese ==> s.started(chinese).config.target_lang
            == "中文"@,
{
    lemma_what_it_takes(s);
}

/// A translation that starts runs with an empty target text, is listened to, and uses the picked
/// language up; nothing else of the state changes.
pub proof fn lemma_start_effect(s: AppView, chinese: bool)
    requires
        !blank(s.source_text),
        !blank(s.config.api_key),
    ensures
        ({
            let t = s.started(chinese);
            &&& t.translate_state == TranslateState::Running
            &&& t.stream_open
            &&& t.target_text.len() == 0
            &&& !t.target_lang_manually_set
            &&& t.status_msg == "正在翻译..."@
            &&& t.source_text == s.source_text
            &&& t.screen == s.screen
            &&& t.test_open == s.test_open
            &&& t.config.api_key == s.config.api_key
            &&& t.config.base_url == s.config.base_url
            &&& t.config.model == s.config.model
            &&& t.config.system_prompt == s.config.system_prompt
            &&& t.settings_api_key == s.settings_api_key
            &&& t.settings_base_url == s.settings_base_url
            &&& t.settings_model == s.settings_model
            &&& t.settings_prompt == s.settings_prompt
            &&& t.settings_show_api_key == s.settings_show_api_key
            &&& t.settings_test_status == s.settings_test_status
        }),
{
    lemma_what_it_takes(s);
}

/// A start that is refused says what is missing, the text before the key, and changes nothing
/// else.
pub proof fn lemma_refusal_effect(s: AppView, chinese: bool)
    ensures
        blank(s.source_text) ==> s.started(chinese) == (AppView {
            status_msg: "请输入要翻译的文本"@,
            ..s
        }),
        !blank(s.source_text) && blank(s.config.api_key) ==> s.started(chinese) == (AppView {
            status_msg: "请先在设置中配置 API Key"@,
            ..s
        }),
{
    lemma_trimmed_blank(s.source_text);
    lemma_trimmed_blank(s.config.api_key);
}

/// A piece is added to the target text as it is and changes nothing else; the end and a failure
/// set the status and end the translation, and leave the target text as it is.
pub proof fn lemma_event_effect(s: AppView, event: EventView)
    ensures
        event matches EventView::Chunk(piece) ==> s.with_event(event) == (AppView {
            target_text: s.target_text + piece,
            ..s
        }),
        event is Done ==> s.with_event(event) == (AppView {
            status_msg: "翻译完成"@,
            translate_state: TranslateState::Idle,
            stream_open: false,
            ..s
        }),
        event matches EventView::Error(m) ==> s.with_event(event) == (AppView {
            status_msg: "错误: "@ + m,
            translate_state: TranslateState::Idle,
            stream_open: false,
            ..s
        }),
{
}

/// Events are taken in one after another while a translation is listened to, and not at all
/// otherwise.
pub proof fn lemma_events_taken_in(s: AppView, events: Seq<EventView>, event: EventView)
    ensures
        s.with_events(Seq::empty()) == s,
        s.with_events(events.push(event)) == s.with_events(events).with_event(event),
        s.stream_open ==> s.streamed(events) == s.with_events(events),
        !s.stream_open ==> s.streamed(events) == s,
{
    assert(events.push(event).drop_last() == events);
}

/// The awaited result of a connection test is shown, with its whole message, and the assistant is
/// idle; without a result, or where none is awaited, nothing changes.
pub proof fn lemma_test_effect(s: AppView, result: Option<Result<Seq<char>, Seq<char>>>)
    ensures
        s.test_open ==> (result matches Some(Ok(m)) ==> s.tested(result) == (AppView {
            translate_state: TranslateState::Idle,
            settings_test_status: "✓ "@ + m,
            test_open: false,
            ..s
        })),
        s.test_open ==> (result matches Some(Err(m)) ==> s.tested(result) == (AppView {
            translate_state: TranslateState::Idle,
            settings_test_status: "✗ "@ + m,
            test_open: false,
            ..s
        })),
        !s.test_open || result is None ==> s.tested(result) == s,
{
}

/// To give a translation up makes the assistant idle and deaf to it, and keeps all else; without
/// a running one it changes nothing.
pub proof fn lemma_cancel_effect(s: AppView)
    ensures
        s.translate_state == TranslateState::Running ==> s.cancelled() == (AppView {
            translate_state: TranslateState::Idle,
            stream_open: false,
            ..s
        }),
        s.translate_state != TranslateState::Running ==> s.cancelled() == s,
{
}

/// To clear empties both texts, besides giving a running translation up, and keeps the
/// configuration and the settings.
pub proof fn lemma_clear_effect(s: AppView)
    ensures
        s.cleared() == (AppView {
            source_text: Seq::empty(),
            target_text: Seq::empty(),
            status_msg: "已清空"@,
            translate_state: if s.translate_state == TranslateState::Running {
                TranslateState::Idle
            } else {
                s.translate_state
            },
            stream_open: s.stream_open && s.translate_state != TranslateState::Running,
            ..s
        }),
{
}

/// To copy changes the status alone.
pub proof fn lemma_copy_effect(s: AppView)
    ensures
        s.copied() == (AppView { status_msg: "已复制到剪贴板"@, ..s }),
{
}

/// A picked language becomes the target language and is remembered as picked if it is another
/// one; nothing else changes.
pub proof fn lemma_pick_effect(s: AppView, lang: Seq<char>)
    ensures
        s.picked(lang).config.target_lang == lang,
        lang != s.config.target_lang ==> s.picked(lang).target_lang_manually_set,
        lang == s.config.target_lang ==> s.picked(lang) == s,
        s.picked(lang) == (AppView {
            config: ConfigView { target_lang: lang, ..s.config },
            target_lang_manually_set: s.picked(lang).target_lang_manually_set,
            ..s
        }),
{
}

/// What is entered counts without the whitespace round it, and the fallback only where nothing
/// but whitespace was entered.
pub proof fn lemma_entered_or_fallback(
    w1: Seq<char>,
    entered: Seq<char>,
    w2: Seq<char>,
    fallback: Seq<char>,
)
    requires
        blank(w1),
        blank(w2),
        entered.len() > 0 ==> !whitespace(entered[0]) && !whitespace(entered.last()),
    ensures
        entered.len() > 0 ==> trimmed_or(w1 + entered + w2, fallback) == entered,
        entered.len() == 0 ==> trimmed_or(w1 + entered + w2, fallback) == fallback,
{
    lemma_trimmed_between(w1, entered, w2);
}

/// Opened settings show the configuration, hide the key and no longer show a test; the
/// configuration and all else stay.
pub proof fn lemma_open_settings_effect(s: AppView)
    ensures
        s.settings_opened().settings_api_key == s.config.api_key,
        s.settings_opened().settings_base_url == s.config.base_url,
        s.settings_opened().settings_model == s.config.model,
        s.settings_opened().settings_prompt == s.config.system_prompt,
        s.settings_opened().settings_test_status.len() == 0,
        !s.settings_opened().settings_show_api_key,
        s.settings_opened().screen == Screen::Settings,
        s.settings_opened().config == s.config,
        s.settings_opened().source_text == s.source_text,
        s.settings_opened().target_text == s.target_text,
        s.settings_opened().status_msg == s.status_msg,
        s.settings_opened().translate_state == s.translate_state,
        s.settings_opened().stream_open == s.stream_open,
        s.settings_opened().test_open == s.test_open,
        s.settings_opened().target_lang_manually_set == s.target_lang_manually_set,
        s.settings_closed() == (AppView { screen: Screen::Main, ..s }),
        s.prompt_restored().settings_prompt
            == "你是一个专业翻译助手。请将以下文本翻译为{target_lang}，自动识别源语言，只输出翻译结果，不要添加任何解释。"@,
        s.prompt_restored() == (AppView {
            settings_prompt: s.prompt_restored().settings_prompt,
            ..s
        }),
{
}

/// What the user entered for the key, the address, the model and the prompt becomes the
/// configuration, each without the whitespace round it; where only whitespace was entered the
/// address, the model and the prompt are the initial ones. The target language and all that does
/// not belong to the configuration stay, and the main view is shown.
pub proof fn lemma_save_effect(s: AppView)
    ensures
        s.settings_saved().config.api_key == trimmed(s.settings_api_key),
        !blank(s.settings_base_url) ==> s.settings_saved().config.base_url == trimmed(
            s.settings_base_url,
        ),
        blank(s.settings_base_url) ==> s.settings_saved().config.base_url
            == "https://api.openai.com/v1"@,
        !blank(s.settings_model) ==> s.settings_saved().config.model == trimmed(s.settings_model),
        blank(s.settings_model) ==> s.settings_saved().config.model == "gpt-4o-mini"@,
        !blank(s.settings_prompt) ==> s.settings_saved().config.system_prompt == trimmed(
            s.settings_prompt,
        ),
        blank(s.settings_prompt) ==> s.settings_saved().config.system_prompt
            == "你是一个专业翻译助手。请将以下文本翻译为{target_lang}，自动识别源语言，只输出翻译结果，不要添加任何解释。"@,
        s.settings_saved().config.target_lang == s.config.target_lang,
        s.settings_saved() == (AppView {
            config: s.settings_saved().config,
            screen: Screen::Main,
            ..s
        }),
{
    lemma_trimmed_blank(s.settings_base_url);
    lemma_trimmed_blank(s.settings_model);
    lemma_trimmed_blank(s.settings_prompt);
}

/// A connection test tries what the user entered: the key, the address and the model without the
/// whitespace round them, and the initial address and model only where nothing was entered. These
/// are the ones that saving the settings would put into the configuration.
pub proof fn lemma_test_tries_the_settings(s: AppView)
    ensures
        s.test_job().api_key == trimmed(s.settings_api_key),
        !blank(s.settings_base_url) ==> s.test_job().base_url == trimmed(s.settings_base_url),
        blank(s.settings_base_url) ==> s.test_job().base_url == "https://api.openai.com/v1"@,
        !blank(s.settings_model) ==> s.test_job().model == trimmed(s.settings_model),
        blank(s.settings_model) ==> s.test_job().model == "gpt-4o-mini"@,
        s.test_job().api_key == s.settings_saved().config.api_key,
        s.test_job().base_url == s.settings_saved().config.base_url,
        s.test_job().model == s.settings_saved().config.model,
{
    lemma_trimmed_blank(s.settings_base_url);
    lemma_trimmed_blank(s.settings_model);
}

/// Settings that differ in an address that is not blank, with no whitespace round it, are tried
/// at different addresses.
pub proof fn lemma_tests_differ(s: AppView, t: AppView)
    requires
        trimmed(s.settings_base_url) == s.settings_base_url,
        trimmed(t.settings_base_url) == t.settings_base_url,
        s.settings_base_url.len() > 0,
        t.settings_base_url.len() > 0,
        s.settings_base_url != t.settings_base_url,
    ensures
        s.test_job().base_url != t.test_job().base_url,
{
}

/// A test that starts is awaited and shown as under way; without a key the user is told, and
/// nothing else changes.
pub proof fn lemma_test_start_effect(s: AppView)
    ensures
        !blank(s.settings_api_key) ==> s.test_started() == (AppView {
            translate_state: TranslateState::Testing,
            settings_test_status: "测试中..."@,
            test_open: true,
            ..s
        }),
        blank(s.settings_api_key) ==> s.test_started() == (AppView {
            settings_test_status: "请先输入 API Key"@,
            ..s
        }),
{
    lemma_trimmed_blank(s.settings_api_key);
}

/// The display follows exactly a running translation and a connection test.
pub proof fn lemma_busy(s: AppView)
    ensures
        s.busy() <==> s.translate_state == TranslateState::Running || s.translate_state
            == TranslateState::Testing,
{
}

/// A message is shown as an error exactly if it begins with the word for it. Any other is shown
/// as a success exactly if it says that the translation is complete or speaks of copying.
pub proof fn lemma_status_tones(before: Seq<char>, after: Seq<char>, message: Seq<char>)
    ensures
        status_tone_of("错误"@ + after) == Tone::Error,
        status_tone_of(message) == Tone::Error ==> message.take(2) == "错误"@,
        status_tone_of(before + "复制"@ + after) != Tone::Muted,
        status_tone_of("翻译完成"@) == Tone::Success,
        status_tone_of(message) == Tone::Success ==> message == "翻译完成"@ || occurs(
            "复制"@,
            message,
        ),
{
    reveal_strlit("错误");
    reveal_strlit("翻译完成");
    assert(("错误"@ + after).subrange(0, 2) == "错误"@);
    assert("翻译完成"@.subrange(0, 2)[0] != "错误"@[0]);
    crate::laws::text::lemma_occurs_where_it_stands(before, "复制"@, after);
}

/// The message on a connection test is shown by its first character alone.
pub proof fn lemma_test_status_tones(message: Seq<char>)
    ensures
        test_tone_of(message) == Tone::Success <==> message.len() > 0 && message[0] == '✓',
        test_tone_of(message) == Tone::Error <==> message.len() > 0 && message[0] == '✗',
{
    reveal_strlit("✓");
    reveal_strlit("✗");
    if message.len() > 0 {
        assert(message.subrange(0, 1) == seq![message[0]]);
        assert("✓"@ == seq!['✓']);
        assert("✗"@ == seq!['✗']);
        assert(seq![message[0]][0] == message[0]);
        assert(seq!['✓'][0] == '✓');
        assert(seq!['✗'][0] == '✗');
    }
}

} // verus!
