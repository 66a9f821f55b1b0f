//! The state of the assistant, and how it changes with what the user and the service do.

use crate::api::{
    concluded, endpoint, event_views, given_up, is_run, lemma_run_orderly, orderly, reported,
    state_after, test_body, test_request, translate_body, translate_content, translate_request,
    ChatChunk, ChatRequest, EventView, StreamState, Taken, TranslateEvent,
};
use crate::config::{
    default_system_prompt, Config, ConfigView, StoredConfig, StoredConfigView, DEFAULT_BASE_URL,
    DEFAULT_MODEL, DEFAULT_SYSTEM_PROMPT,
};
use crate::language::{is_predominantly_chinese, predominantly_chinese};
use crate::text::{
    joined, lemma_trimmed_already, lemma_trimmed_twice, replaced, trim, trimmed,
};
use vstd::prelude::*;

verus! {

/// What is shown.
#[derive(Debug, Clone, Copy, PartialEq, Eq, Structural)]
pub enum Screen {
    Main,
    Settings,
}

/// What is going on.
#[derive(Debug, Clone, Copy, PartialEq, Eq, Structural)]
pub enum TranslateState {
    Idle,
    /// A translation is running.
    Running,
    /// The connection is being tried out.
    Testing,
}

/// The state of the assistant.
#[derive(Debug)]
pub struct App {
    pub config: Config,
    pub screen: Screen,
    pub source_text: String,
    pub target_text: String,
    pub translate_state: TranslateState,
    pub status_msg: String,
    /// There is a translation whose events are listened to.
    pub stream_open: bool,
    /// The user has picked a target language since the last translation; the next translation
    /// keeps it instead of choosing one by the language of the text.
    pub target_lang_manually_set: bool,
    pub settings_api_key: String,
    pub settings_base_url: String,
    pub settings_model: String,
    pub settings_prompt: String,
    pub settings_show_api_key: bool,
    pub settings_test_status: String,
    /// There is a connection test whose result is awaited.
    pub test_open: bool,
}

/// The contents of an `App`.
pub struct AppView {
    pub config: ConfigView,
    pub screen: Screen,
    pub source_text: Seq<char>,
    pub target_text: Seq<char>,
    pub translate_state: TranslateState,
    pub status_msg: Seq<char>,
    pub stream_open: bool,
    pub target_lang_manually_set: bool,
    pub settings_api_key: Seq<char>,
    pub settings_base_url: Seq<char>,
    pub settings_model: Seq<char>,
    pub settings_prompt: Seq<char>,
    pub settings_show_api_key: bool,
    pub settings_test_status: Seq<char>,
    pub test_open: bool,
}

impl View for App {
    type V = AppView;

    open spec fn view(&self) -> AppView {
        AppView {
            config: self.config@,
            screen: self.screen,
            source_text: self.source_text@,
            target_text: self.target_text@,
            translate_state: self.translate_state,
            status_msg: self.status_msg@,
            stream_open: self.stream_open,
            target_lang_manually_set: self.target_lang_manually_set,
            settings_api_key: self.settings_api_key@,
            settings_base_url: self.settings_base_url@,
            settings_model: self.settings_model@,
            settings_prompt: self.settings_prompt@,
            settings_show_api_key: self.settings_show_api_key,
            settings_test_status: self.settings_test_status@,
            test_open: self.test_open,
        }
    }
}

/// A translation to be carried out.
#[derive(Debug)]
pub struct TranslateJob {
    pub api_key: String,
    pub base_url: String,
    pub model: String,
    pub prompt: String,
    pub text: String,
    /// The configuration to be stored before.
    pub stored: StoredConfig,
}

/// The contents of a `TranslateJob`.
pub struct TranslateJobView {
    pub api_key: Seq<char>,
    pub base_url: Seq<char>,
    pub model: Seq<char>,
    pub prompt: Seq<char>,
    pub text: Seq<char>,
    pub stored: StoredConfigView,
}

impl View for TranslateJob {
    type V = TranslateJobView;

    open spec fn view(&self) -> TranslateJobView {
        TranslateJobView {
            api_key: self.api_key@,
            base_url: self.base_url@,
            model: self.model@,
            prompt: self.prompt@,
            text: self.text@,
            stored: self.stored@,
        }
    }
}

impl TranslateJob {
    /// The request that carries the translation out.
    pub fn request(&self) -> (request: ChatRequest)
        ensures
            request.url@ == endpoint(self.base_url@),
            request.authorization@ == "Bearer "@ + self.api_key@,
            request.content_type@ == "application/json"@,
            request.body@ == translate_body(
                self.model@,
                translate_content(self.prompt@, self.text@),
            ),
            request.timeout_secs == 60,
    {
        translate_request(
            self.api_key.as_str(),
            self.base_url.as_str(),
            self.model.as_str(),
            self.prompt.as_str(),
            self.text.as_str(),
        )
    }
}

/// A connection test to be carried out.
#[derive(Debug)]
pub struct TestJob {
    pub api_key: String,
    pub base_url: String,
    pub model: String,
}

/// The contents of a `TestJob`.
pub struct TestJobView {
    pub api_key: Seq<char>,
    pub base_url: Seq<char>,
    pub model: Seq<char>,
}

impl View for TestJob {
    type V = TestJobView;

    open spec fn view(&self) -> TestJobView {
        TestJobView { api_key: self.api_key@, base_url: self.base_url@, model: self.model@ }
    }
}

impl TestJob {
    /// The request that carries the test out.
    pub fn request(&self) -> (request: ChatRequest)
        ensures
            request.url@ == endpoint(self.base_url@),
            request.authorization@ == "Bearer "@ + self.api_key@,
            request.content_type@ == "application/json"@,
            request.body@ == test_body(self.model@),
            request.timeout_secs == 15,
    {
        test_request(self.api_key.as_str(), self.base_url.as_str(), self.model.as_str())
    }
}

/// The contents of the result of a connection test.
pub open spec fn result_view(r: Result<String, String>) -> Result<Seq<char>, Seq<char>> {
    match r {
        Ok(s) => Ok(s@),
        Err(s) => Err(s@),
    }
}

/// The contents of the result of a connection test, if there is one.
pub open spec fn opt_result_view(r: Option<Result<String, String>>) -> Option<
    Result<Seq<char>, Seq<char>>,
> {
    match r {
        Some(r) => Some(result_view(r)),
        None => None,
    }
}

/// `s` without the whitespace round it, or `fallback` where nothing else is left.
pub open spec fn trimmed_or(s: Seq<char>, fallback: Seq<char>) -> Seq<char> {
    if trimmed(s).len() == 0 {
        fallback
    } else {
        trimmed(s)
    }
}

/// `s` without the whitespace round it, or `fallback` where nothing else is left.
pub fn non_empty_or(s: &str, fallback: &str) -> (r: String)
    ensures
        r@ == trimmed_or(s@, fallback@),
{
    let t: String = trim(s);
    if t.as_str().is_empty() {
        fallback.to_owned()
    } else {
        t
    }
}

impl AppView {
    /// The state on start, with the configuration `config`.
    pub open spec fn initial(config: ConfigView) -> AppView {
        AppView {
            config,
            screen: Screen::Main,
            source_text: Seq::empty(),
            target_text: Seq::empty(),
            translate_state: TranslateState::Idle,
            status_msg: "就绪"@,
            stream_open: false,
            target_lang_manually_set: false,
            settings_api_key: config.api_key,
            settings_base_url: config.base_url,
            settings_model: config.model,
            settings_prompt: config.system_prompt,
            settings_show_api_key: false,
            settings_test_status: Seq::empty(),
            test_open: false,
        }
    }

    /// There is a text to translate, and a key to the service.
    pub open spec fn can_start(self) -> bool {
        trimmed(self.source_text).len() > 0 && trimmed(self.config.api_key).len() > 0
    }

    /// The language that a text is translated to: the one that the user picked, or else English
    /// for a Chinese text and Chinese for any other.
    pub open spec fn chosen_lang(self, chinese: bool) -> Seq<char> {
        if self.target_lang_manually_set {
            self.config.target_lang
        } else if chinese {
            "英文"@
        } else {
            "中文"@
        }
    }

    /// A translation is asked for; `chinese` says whether the text is taken for Chinese.
    pub open spec fn started(self, chinese: bool) -> AppView {
        if trimmed(self.source_text).len() == 0 {
            AppView { status_msg: "请输入要翻译的文本"@, ..self }
        } else if trimmed(self.config.api_key).len() == 0 {
            AppView { status_msg: "请先在设置中配置 API Key"@, ..self }
        } else {
            AppView {
                config: ConfigView { target_lang: self.chosen_lang(chinese), ..self.config },
                target_lang_manually_set: false,
                target_text: Seq::empty(),
                translate_state: TranslateState::Running,
                status_msg: "正在翻译..."@,
                stream_open: true,
                ..self
            }
        }
    }

    /// The translation of the text with the configuration as it is.
    pub open spec fn job(self) -> TranslateJobView {
        TranslateJobView {
            api_key: self.config.api_key,
            base_url: self.config.base_url,
            model: self.config.model,
            prompt: self.config.prompt(),
            text: trimmed(self.source_text),
            stored: self.config.stored(),
        }
    }

    /// The translation reports `event`.
    pub open spec fn with_event(self, event: EventView) -> AppView {
        match event {
            EventView::Chunk(s) => AppView { target_text: self.target_text + s, ..self },
            EventView::Done => AppView {
                translate_state: TranslateState::Idle,
                status_msg: "翻译完成"@,
                stream_open: false,
                ..self
            },
            EventView::Error(m) => AppView {
                translate_state: TranslateState::Idle,
                status_msg: "错误: "@ + m,
                stream_open: false,
                ..self
            },
        }
    }

    /// The translation reports `events`, one after another.
    pub open spec fn with_events(self, events: Seq<EventView>) -> AppView
        decreases events.len(),
    {
        if events.len() == 0 {
            self
        } else {
            self.with_events(events.drop_last()).with_event(events.last())
        }
    }

    /// The events `events` have come in; they count if there is a translation to listen to.
    pub open spec fn streamed(self, events: Seq<EventView>) -> AppView {
        if self.stream_open {
            self.with_events(events)
        } else {
            self
        }
    }

    /// The connection test has come to `result`, if to any; it counts if a test is awaited.
    pub open spec fn tested(self, result: Option<Result<Seq<char>, Seq<char>>>) -> AppView {
        if self.test_open && result is Some {
            AppView {
                translate_state: TranslateState::Idle,
                settings_test_status: match result->0 {
                    Ok(m) => "✓ "@ + m,
                    Err(m) => "✗ "@ + m,
                },
                test_open: false,
                ..self
            }
        } else {
            self
        }
    }

    /// A running translation is given up.
    pub open spec fn cancelled(self) -> AppView {
        if self.translate_state == TranslateState::Running {
            AppView { translate_state: TranslateState::Idle, stream_open: false, ..self }
        } else {
            self
        }
    }

    /// Both texts are cleared.
    pub open spec fn cleared(self) -> AppView {
        AppView {
            source_text: Seq::empty(),
            target_text: Seq::empty(),
            status_msg: "已清空"@,
            ..self.cancelled()
        }
    }

    /// The translation has been copied.
    pub open spec fn copied(self) -> AppView {
        AppView { status_msg: "已复制到剪贴板"@, ..self }
    }

    /// The user picks the target language `lang`.
    pub open spec fn picked(self, lang: Seq<char>) -> AppView {
        AppView {
            config: ConfigView { target_lang: lang, ..self.config },
            target_lang_manually_set: self.target_lang_manually_set || lang
                != self.config.target_lang,
            ..self
        }
    }

    /// The settings are shown, filled in from the configuration.
    pub open spec fn settings_opened(self) -> AppView {
        AppView {
            settings_api_key: self.config.api_key,
            settings_base_url: self.config.base_url,
            settings_model: self.config.model,
            settings_prompt: self.config.system_prompt,
            settings_show_api_key: false,
            settings_test_status: Seq::empty(),
            screen: Screen::Settings,
            ..self
        }
    }

    /// The settings are left as they are.
    pub open spec fn settings_closed(self) -> AppView {
        AppView { screen: Screen::Main, ..self }
    }

    /// The settings become the configuration.
    pub open spec fn settings_saved(self) -> AppView {
        AppView {
            config: ConfigView {
                api_key: trimmed(self.settings_api_key),
                base_url: trimmed_or(self.settings_base_url, DEFAULT_BASE_URL@),
                model: trimmed_or(self.settings_model, DEFAULT_MODEL@),
                system_prompt: trimmed_or(self.settings_prompt, DEFAULT_SYSTEM_PROMPT@),
                target_lang: self.config.target_lang,
            },
            screen: Screen::Main,
            ..self
        }
    }

    /// The prompt of the settings is the initial one again.
    pub open spec fn prompt_restored(self) -> AppView {
        AppView { settings_prompt: DEFAULT_SYSTEM_PROMPT@, ..self }
    }

    /// There is a key to try the connection with.
    pub open spec fn can_test(self) -> bool {
        trimmed(self.settings_api_key).len() > 0
    }

    /// A connection test is asked for.
    pub open spec fn test_started(self) -> AppView {
        if self.can_test() {
            AppView {
                translate_state: TranslateState::Testing,
                settings_test_status: "测试中..."@,
                test_open: true,
                ..self
            }
        } else {
            AppView { settings_test_status: "请先输入 API Key"@, ..self }
        }
    }

    /// The test of the connection that the settings describe.
    pub open spec fn test_job(self) -> TestJobView {
        TestJobView {
            api_key: trimmed(self.settings_api_key),
            base_url: trimmed_or(self.settings_base_url, DEFAULT_BASE_URL@),
            model: trimmed_or(self.settings_model, DEFAULT_MODEL@),
        }
    }

    /// Something is going on that the display has to follow.
    pub open spec fn busy(self) -> bool {
        self.translate_state != TranslateState::Idle
    }
}

/// What is to be done after an update.
#[derive(Debug)]
pub struct UpdateStep {
    /// The translation has ended: it can no longer be given up.
    pub stream_ended: bool,
    /// The display is to be drawn again soon.
    pub repaint: bool,
}

impl App {
    /// The state on start, with the configuration `config`.
    pub fn new(config: Config) -> (app: App)
        ensures
            app@ == AppView::initial(config@),
    {
        App {
            settings_api_key: config.api_key.clone(),
            settings_base_url: config.base_url.clone(),
            settings_model: config.model.clone(),
            settings_prompt: config.system_prompt.clone(),
            config,
            screen: Screen::Main,
            source_text: String::new(),
            target_text: String::new(),
            translate_state: TranslateState::Idle,
            status_msg: "就绪".to_owned(),
            stream_open: false,
            target_lang_manually_set: false,
            settings_show_api_key: false,
            settings_test_status: String::new(),
            test_open: false,
        }
    }

    /// Asks for a translation of the source text. The target language is chosen by the language
    /// of the text unless the user has picked one.
    pub fn start_translation(&mut self) -> (job: Option<TranslateJob>)
        ensures
            final(self)@ == old(self)@.started(
                predominantly_chinese(trimmed(old(self).source_text@)),
            ),
            job is Some <==> old(self)@.can_start(),
            job matches Some(j) ==> j@ == final(self)@.job(),
            job matches Some(j) ==> {
                &&& j.api_key@ == old(self).config.api_key@
                &&& j.base_url@ == old(self).config.base_url@
                &&& j.model@ == old(self).config.model@
                &&& j.text@ == trimmed(old(self).source_text@)
                &&& j.prompt@ == replaced(
                    old(self).config.system_prompt@,
                    "{target_lang}"@,
                    final(self).config.target_lang@,
                )
                &&& j.stored.target_lang matches Some(l) && l@ == final(self).config.target_lang@
            },
            job is Some && !old(self).target_lang_manually_set ==> final(self).config.target_lang@
                == if predominantly_chinese(trimmed(old(self).source_text@)) {
                "英文"@
            } else {
                "中文"@
            },
            job is Some && old(self).target_lang_manually_set ==> final(self).config.target_lang@
                == old(self).config.target_lang@,
    {
        let text: String = trim(self.source_text.as_str());
        let chinese: bool = is_predominantly_chinese(text.as_str());
        self.start_detected(chinese)
    }

    /// Asks for a translation of the source text, where `chinese` says whether it is taken for
    /// Chinese.
    pub fn start_detected(&mut self, chinese: bool) -> (job: Option<TranslateJob>)
        ensures
            final(self)@ == old(self)@.started(chinese),
            job is Some <==> old(self)@.can_start(),
            job matches Some(j) ==> j@ == final(self)@.job(),
            job matches Some(j) ==> {
                &&& j.api_key@ == old(self).config.api_key@
                &&& j.base_url@ == old(self).config.base_url@
                &&& j.model@ == old(self).config.model@
                &&& j.text@ == trimmed(old(self).source_text@)
                &&& j.prompt@ == replaced(
                    old(self).config.system_prompt@,
                    "{target_lang}"@,
                    final(self).config.target_lang@,
                )
                &&& j.stored.target_lang matches Some(l) && l@ == final(self).config.target_lang@
            },
    {
        let text: String = trim(self.source_text.as_str());
        if text.as_str().is_empty() {
            self.status_msg = "请输入要翻译的文本".to_owned();
            return None;
        }
        if trim(self.config.api_key.as_str()).as_str().is_empty() {
            self.status_msg = "请先在设置中配置 API Key".to_owned();
            return None;
        }
        if !self.target_lang_manually_set {
            self.config.target_lang = if chinese {
                "英文".to_owned()
            } else {
                "中文".to_owned()
            };
        }
        self.target_lang_manually_set = false;
        self.target_text = String::new();
        self.translate_state = TranslateState::Running;
        self.status_msg = "正在翻译...".to_owned();
        self.stream_open = true;
        Some(
            TranslateJob {
                api_key: self.config.api_key.clone(),
                base_url: self.config.base_url.clone(),
                model: self.config.model.clone(),
                prompt: self.config.build_prompt(),
                text,
                stored: self.config.save(),
            },
        )
    }

    /// The user asks for a translation, by the button or by the key. It is passed over where
    /// `was_translating` says that one was running when the view was drawn.
    pub fn ask_translation(&mut self, was_translating: bool) -> (job: Option<TranslateJob>)
        ensures
            was_translating ==> final(self)@ == old(self)@ && job is None,
            !was_translating ==> {
                &&& final(self)@ == old(self)@.started(
                    predominantly_chinese(trimmed(old(self).source_text@)),
                )
                &&& job is Some <==> old(self)@.can_start()
                &&& job matches Some(j) ==> j@ == final(self)@.job()
            },
            job matches Some(j) ==> {
                &&& j.api_key@ == old(self).config.api_key@
                &&& j.base_url@ == old(self).config.base_url@
                &&& j.model@ == old(self).config.model@
                &&& j.text@ == trimmed(old(self).source_text@)
                &&& j.prompt@ == replaced(
                    old(self).config.system_prompt@,
                    "{target_lang}"@,
                    final(self).config.target_lang@,
                )
                &&& j.stored.target_lang matches Some(l) && l@ == final(self).config.target_lang@
            },
    {
        if was_translating {
            None
        } else {
            self.start_translation()
        }
    }

    /// Takes in the events that have come from the running translation. Returns whether it has
    /// ended with them.
    pub fn poll_stream(&mut self, events: Vec<TranslateEvent>) -> (ended: bool)
        ensures
            final(self)@ == old(self)@.streamed(event_views(events@)),
            ended <==> old(self).stream_open && exists|i: int|
                0 <= i < events.len() && (#[trigger] events@[i])@.terminal(),
    {
        if !self.stream_open {
            return false;
        }
        let ghost all = event_views(events@);
        let ghost start = self@;
        let mut ended: bool = false;
        let mut i: usize = 0;
        assert(all.take(0).len() == 0);
        while i < events.len()
            invariant
                i <= events.len(),
                all == event_views(events@),
                self@ == start.with_events(all.take(i as int)),
                ended <==> exists|k: int| 0 <= k < i && (#[trigger] events@[k])@.terminal(),
            decreases events.len() - i,
        {
            proof {
                assert(all.take(i + 1).drop_last() == all.take(i as int));
                assert(all.take(i + 1).last() == events@[i as int]@);
            }
            match &events[i] {
                TranslateEvent::Chunk(chunk) => {
                    self.target_text.append(chunk.as_str());
                },
                TranslateEvent::Done => {
                    self.translate_state = TranslateState::Idle;
                    self.status_msg = "翻译完成".to_owned();
                    self.stream_open = false;
                    ended = true;
                },
                TranslateEvent::Error(err) => {
                    self.translate_state = TranslateState::Idle;
                    self.status_msg = joined("错误: ", err.as_str());
                    self.stream_open = false;
                    ended = true;
                },
            }
            i += 1;
        }
        assert(all.take(i as int) == all);
        ended
    }

    /// Takes in the result of the connection test, if it has come.
    pub fn poll_test(&mut self, result: Option<Result<String, String>>)
        ensures
            final(self)@ == old(self)@.tested(opt_result_view(result)),
    {
        if !self.test_open {
            return ;
        }
        if let Some(result) = result {
            self.translate_state = TranslateState::Idle;
            self.settings_test_status = match result {
                Ok(msg) => joined("✓ ", msg.as_str()),
                Err(err) => joined("✗ ", err.as_str()),
            };
            self.test_open = false;
        }
    }

    /// Takes in what has come since the last time.
    pub fn update(
        &mut self,
        events: Vec<TranslateEvent>,
        result: Option<Result<String, String>>,
    ) -> (step: UpdateStep)
        ensures
            final(self)@ == old(self)@.streamed(event_views(events@)).tested(
                opt_result_view(result),
            ),
            step.stream_ended <==> old(self).stream_open && exists|i: int|
                0 <= i < events.len() && (#[trigger] events@[i])@.terminal(),
            step.repaint == final(self)@.busy(),
    {
        let stream_ended: bool = self.poll_stream(events);
        self.poll_test(result);
        UpdateStep {
            stream_ended,
            repaint: self.translate_state == TranslateState::Running || self.translate_state
                == TranslateState::Testing,
        }
    }

    /// Gives a running translation up. Returns whether there was one.
    pub fn cancel_translation(&mut self) -> (was_running: bool)
        ensures
            final(self)@ == old(self)@.cancelled(),
            was_running == (old(self).translate_state == TranslateState::Running),
    {
        if self.translate_state == TranslateState::Running {
            self.translate_state = TranslateState::Idle;
            self.stream_open = false;
            true
        } else {
            false
        }
    }

    /// Clears both texts and gives a running translation up. Returns whether there was one.
    pub fn clear(&mut self) -> (was_running: bool)
        ensures
            final(self)@ == old(self)@.cleared(),
            was_running == (old(self).translate_state == TranslateState::Running),
    {
        let was_running: bool = self.cancel_translation();
        self.source_text = String::new();
        self.target_text = String::new();
        self.status_msg = "已清空".to_owned();
        was_running
    }

    /// The text that the user copies, if there is any.
    pub fn text_to_copy(&self) -> (text: Option<String>)
        ensures
            text is Some <==> self.target_text@.len() > 0,
            text matches Some(t) ==> t@ == self.target_text@,
    {
        if self.target_text.as_str().is_empty() {
            None
        } else {
            Some(self.target_text.clone())
        }
    }

    /// Notes that the translation was handed to the clipboard.
    pub fn note_copied(&mut self)
        ensures
            final(self)@ == old(self)@.copied(),
    {
        self.status_msg = "已复制到剪贴板".to_owned();
    }

    /// The user picks the target language `lang`.
    pub fn pick_language(&mut self, lang: String)
        ensures
            final(self)@ == old(self)@.picked(lang@),
    {
        if lang != self.config.target_lang {
            self.target_lang_manually_set = true;
        }
        self.config.target_lang = lang;
    }

    /// Shows the settings, filled in from the configuration.
    pub fn open_settings(&mut self)
        ensures
            final(self)@ == old(self)@.settings_opened(),
    {
        self.settings_api_key = self.config.api_key.clone();
        self.settings_base_url = self.config.base_url.clone();
        self.settings_model = self.config.model.clone();
        self.settings_prompt = self.config.system_prompt.clone();
        self.settings_show_api_key = false;
        self.settings_test_status = String::new();
        self.screen = Screen::Settings;
    }

    /// Leaves the settings without taking them over.
    pub fn close_settings(&mut self)
        ensures
            final(self)@ == old(self)@.settings_closed(),
    {
        self.screen = Screen::Main;
    }

    /// Takes the settings over into the configuration, and returns what is to be stored.
    pub fn save_settings(&mut self) -> (stored: StoredConfig)
        ensures
            final(self)@ == old(self)@.settings_saved(),
            stored@ == final(self)@.config.stored(),
    {
        self.config.api_key = trim(self.settings_api_key.as_str());
        self.config.base_url = non_empty_or(self.settings_base_url.as_str(), DEFAULT_BASE_URL);
        self.config.model = non_empty_or(self.settings_model.as_str(), DEFAULT_MODEL);
        self.config.system_prompt = non_empty_or(
            self.settings_prompt.as_str(),
            DEFAULT_SYSTEM_PROMPT,
        );
        self.screen = Screen::Main;
        self.config.save()
    }

    /// Puts the initial prompt back into the settings.
    pub fn restore_prompt(&mut self)
        ensures
            final(self)@ == old(self)@.prompt_restored(),
    {
        self.settings_prompt = default_system_prompt();
    }

    /// Asks for a test of the connection that the settings describe.
    pub fn start_test(&mut self) -> (job: Option<TestJob>)
        ensures
            final(self)@ == old(self)@.test_started(),
            job is Some <==> old(self)@.can_test(),
            job matches Some(j) ==> j@ == old(self)@.test_job(),
            job matches Some(j) ==> {
                &&& j.api_key@ == trimmed(old(self).settings_api_key@)
                &&& trimmed(old(self).settings_base_url@).len() > 0 ==> j.base_url@ == trimmed(
                    old(self).settings_base_url@,
                )
                &&& trimmed(old(self).settings_base_url@).len() == 0 ==> j.base_url@
                    == "https://api.openai.com/v1"@
                &&& trimmed(old(self).settings_model@).len() > 0 ==> j.model@ == trimmed(
                    old(self).settings_model@,
                )
                &&& trimmed(old(self).settings_model@).len() == 0 ==> j.model@ == "gpt-4o-mini"@
            },
    {
        let api_key: String = trim(self.settings_api_key.as_str());
        if api_key.as_str().is_empty() {
            self.settings_test_status = "请先输入 API Key".to_owned();
            None
        } else {
            let base_url: String = non_empty_or(self.settings_base_url.as_str(), DEFAULT_BASE_URL);
            let model: String = non_empty_or(self.settings_model.as_str(), DEFAULT_MODEL);
            self.translate_state = TranslateState::Testing;
            self.settings_test_status = "测试中...".to_owned();
            self.test_open = true;
            Some(TestJob { api_key, base_url, model })
        }
    }

    /// The user asks for a connection test. It is passed over where `was_testing` says that one
    /// was under way when the view was drawn.
    pub fn ask_test(&mut self, was_testing: bool) -> (job: Option<TestJob>)
        ensures
            was_testing ==> final(self)@ == old(self)@ && job is None,
            !was_testing ==> {
                &&& final(self)@ == old(self)@.test_started()
                &&& job is Some <==> old(self)@.can_test()
                &&& job matches Some(j) ==> j@ == old(self)@.test_job()
            },
            job matches Some(j) ==> {
                &&& j.api_key@ == trimmed(old(self).settings_api_key@)
                &&& trimmed(old(self).settings_base_url@).len() > 0 ==> j.base_url@ == trimmed(
                    old(self).settings_base_url@,
                )
                &&& trimmed(old(self).settings_base_url@).len() == 0 ==> j.base_url@
                    == "https://api.openai.com/v1"@
                &&& trimmed(old(self).settings_model@).len() > 0 ==> j.model@ == trimmed(
                    old(self).settings_model@,
                )
                &&& trimmed(old(self).settings_model@).len() == 0 ==> j.model@ == "gpt-4o-mini"@
            },
    {
        if was_testing {
            None
        } else {
            self.start_test()
        }
    }
}

impl AppView {
    /// While a translation is running its events are listened to, and while the connection is
    /// being tried out the result is awaited: the assistant never waits for what cannot come.
    pub open spec fn sound(self) -> bool {
        &&& self.translate_state == TranslateState::Running ==> self.stream_open
        &&& self.translate_state == TranslateState::Testing ==> self.test_open
    }

    /// The state after `change`.
    pub open spec fn after(self, change: Change) -> AppView {
        match change {
            Change::Edit(text) => AppView { source_text: text, ..self },
            Change::EditSettings(api_key, base_url, model, prompt, show) => AppView {
                settings_api_key: api_key,
                settings_base_url: base_url,
                settings_model: model,
                settings_prompt: prompt,
                settings_show_api_key: show,
                ..self
            },
            Change::Start(chinese) => self.started(chinese),
            Change::Stream(events) => self.streamed(events),
            Change::Test(result) => self.tested(result),
            Change::Cancel => self.cancelled(),
            Change::Clear => self.cleared(),
            Change::Copy => self.copied(),
            Change::Pick(lang) => self.picked(lang),
            Change::OpenSettings => self.settings_opened(),
            Change::CloseSettings => self.settings_closed(),
            Change::SaveSettings => self.settings_saved(),
            Change::RestorePrompt => self.prompt_restored(),
            Change::StartTest => self.test_started(),
        }
    }

    /// The state after `changes`, one after another.
    pub open spec fn after_all(self, changes: Seq<Change>) -> AppView
        decreases changes.len(),
    {
        if changes.len() == 0 {
            self
        } else {
            self.after_all(changes.drop_last()).after(changes.last())
        }
    }
}

/// What can happen to the state.
pub enum Change {
    Edit(Seq<char>),
    EditSettings(Seq<char>, Seq<char>, Seq<char>, Seq<char>, bool),
    Start(bool),
    Stream(Seq<EventView>),
    Test(Option<Result<Seq<char>, Seq<char>>>),
    Cancel,
    Clear,
    Copy,
    Pick(Seq<char>),
    OpenSettings,
    CloseSettings,
    SaveSettings,
    RestorePrompt,
    StartTest,
}

/// Events change the text and the status only, and end the translation exactly if one of them
/// concludes it.
pub proof fn lemma_events_frame(s: AppView, events: Seq<EventView>)
    ensures
        s.with_events(events) == (AppView {
            target_text: s.with_events(events).target_text,
            translate_state: s.with_events(events).translate_state,
            status_msg: s.with_events(events).status_msg,
            stream_open: s.with_events(events).stream_open,
            ..s
        }),
        (exists|i: int| 0 <= i < events.len() && (#[trigger] events[i]).terminal()) ==> {
            &&& s.with_events(events).translate_state == TranslateState::Idle
            &&& !s.with_events(events).stream_open
        },
        !(exists|i: int| 0 <= i < events.len() && (#[trigger] events[i]).terminal()) ==> {
            &&& s.with_events(events).translate_state == s.translate_state
            &&& s.with_events(events).stream_open == s.stream_open
            &&& s.with_events(events).status_msg == s.status_msg
        },
    decreases events.len(),
{
    if events.len() > 0 {
        let before = events.drop_last();
        lemma_events_frame(s, before);
        if exists|i: int| 0 <= i < before.len() && (#[trigger] before[i]).terminal() {
            let i = choose|i: int| 0 <= i < before.len() && (#[trigger] before[i]).terminal();
            assert(events[i].terminal());
        }
        if exists|i: int| 0 <= i < events.len() && (#[trigger] events[i]).terminal() {
            let i = choose|i: int| 0 <= i < events.len() && (#[trigger] events[i]).terminal();
            if i < before.len() {
                assert(before[i].terminal());
            }
        } else {
            assert(!events[events.len() - 1].terminal());
        }
    }
}

/// Every change keeps the state sound.
pub proof fn lemma_change_keeps_sound(s: AppView, change: Change)
    requires
        s.sound(),
    ensures
        s.after(change).sound(),
{
    if let Change::Stream(events) = change {
        lemma_events_frame(s, events);
    }
}

/// Whatever happens from the start on, the state is sound.
pub proof fn lemma_always_sound(config: ConfigView, changes: Seq<Change>)
    ensures
        AppView::initial(config).after_all(changes).sound(),
    decreases changes.len(),
{
    if changes.len() > 0 {
        lemma_always_sound(config, changes.drop_last());
        lemma_change_keeps_sound(
            AppView::initial(config).after_all(changes.drop_last()),
            changes.last(),
        );
    }
}

/// Events are taken in one by one: it does not matter in which portions they come.
pub proof fn lemma_events_in_portions(s: AppView, a: Seq<EventView>, b: Seq<EventView>)
    ensures
        s.with_events(a + b) == s.with_events(a).with_events(b),
    decreases b.len(),
{
    if b.len() == 0 {
        assert(a + b == a);
    } else {
        assert((a + b).drop_last() == a + b.drop_last());
        lemma_events_in_portions(s, a, b.drop_last());
    }
}

/// The pieces that `events` carry, put together.
pub open spec fn pieces(events: Seq<EventView>) -> Seq<char>
    decreases events.len(),
{
    if events.len() == 0 {
        seq![]
    } else {
        pieces(events.drop_last()) + match events.last() {
            EventView::Chunk(s) => s,
            _ => Seq::empty(),
        }
    }
}

/// The target text grows by the pieces that come in, in their order.
pub proof fn lemma_text_is_pieces(s: AppView, events: Seq<EventView>)
    ensures
        s.with_events(events).target_text == s.target_text + pieces(events),
    decreases events.len(),
{
    if events.len() == 0 {
        assert(s.target_text + Seq::<char>::empty() == s.target_text);
    } else {
        let before = events.drop_last();
        lemma_text_is_pieces(s, before);
        match events.last() {
            EventView::Chunk(c) => {
                assert(s.target_text + pieces(before) + c == s.target_text + (pieces(before) + c));
            },
            _ => {
                assert(pieces(before) + Seq::<char>::empty() == pieces(before));
            },
        }
    }
}

/// From a start that is granted to the conclusion: the target text is what the service sent, and
/// nothing but that, the assistant is idle again, and the status tells how it ended.
pub proof fn lemma_whole_translation(s: AppView, chinese: bool, events: Seq<EventView>)
    requires
        s.can_start(),
        orderly(events),
        concluded(events),
    ensures
        s.started(chinese).streamed(events).target_text == pieces(events),
        s.started(chinese).streamed(events).translate_state == TranslateState::Idle,
        !s.started(chinese).streamed(events).stream_open,
        s.started(chinese).streamed(events).status_msg == match events.last() {
            EventView::Error(m) => "错误: "@ + m,
            _ => "翻译完成"@,
        },
{
    lemma_text_is_pieces(s.started(chinese), events);
    assert(Seq::<char>::empty() + pieces(events) == pieces(events));
    lemma_events_frame(s.started(chinese), events);
    assert(events[events.len() - 1].terminal());
}

/// A translation that runs to its end without being given up, and all of whose events come in,
/// leaves the assistant idle with the pieces that it reported as the target text.
pub proof fn lemma_run_to_the_end<P: Fn(String) -> Option<ChatChunk>>(
    s: AppView,
    chinese: bool,
    parse: P,
    steps: Seq<Taken>,
)
    requires
        s.can_start(),
        is_run(parse, steps),
        state_after(steps) == StreamState::Closed,
        !given_up(steps),
    ensures
        s.started(chinese).streamed(reported(steps)).translate_state == TranslateState::Idle,
        s.started(chinese).streamed(reported(steps)).target_text == pieces(reported(steps)),
{
    lemma_run_orderly(parse, steps);
    lemma_whole_translation(s, chinese, reported(steps));
}

/// After a translation is given up, what it still sends has no effect.
pub proof fn lemma_cancelled_is_silent(s: AppView, events: Seq<EventView>)
    requires
        s.translate_state == TranslateState::Running,
    ensures
        s.cancelled().streamed(events) == s.cancelled(),
        s.cleared().streamed(events) == s.cleared(),
{
}

/// A start that is refused changes the status alone.
pub proof fn lemma_refused_start(s: AppView, chinese: bool)
    requires
        !s.can_start(),
    ensures
        s.started(chinese) == (AppView { status_msg: s.started(chinese).status_msg, ..s }),
{
}

/// A picked language holds for the next translation, and for that one alone: the one after it
/// goes by the language of the text again.
pub proof fn lemma_pick_holds_once(s: AppView, lang: Seq<char>, first: bool, second: bool)
    requires
        s.can_start(),
        lang != s.config.target_lang,
    ensures
        s.picked(lang).can_start(),
        s.picked(lang).started(first).config.target_lang == lang,
        s.picked(lang).started(first).started(second).config.target_lang == if second {
            "英文"@
        } else {
            "中文"@
        },
{
}

/// Until a translation starts, a picked language is kept, whatever is refused meanwhile.
pub proof fn lemma_pick_survives_refusal(s: AppView, lang: Seq<char>, chinese: bool)
    requires
        !s.can_start(),
        lang != s.config.target_lang,
    ensures
        s.picked(lang).started(chinese).config.target_lang == lang,
        s.picked(lang).started(chinese).target_lang_manually_set,
{
}

/// Saved settings are complete: there is an address, a model and a prompt, none of them with
/// whitespace round it, and the target language stays.
pub proof fn lemma_saved_settings_complete(s: AppView)
    ensures
        s.settings_saved().config.base_url.len() > 0,
        s.settings_saved().config.model.len() > 0,
        s.settings_saved().config.system_prompt.len() > 0,
        trimmed(s.settings_saved().config.api_key) == s.settings_saved().config.api_key,
        trimmed(s.settings_saved().config.base_url) == s.settings_saved().config.base_url,
        trimmed(s.settings_saved().config.model) == s.settings_saved().config.model,
        trimmed(s.settings_saved().config.system_prompt)
            == s.settings_saved().config.system_prompt,
        s.settings_saved().config.target_lang == s.config.target_lang,
{
    lemma_trimmed_twice(s.settings_api_key);
    lemma_trimmed_twice(s.settings_base_url);
    lemma_trimmed_twice(s.settings_model);
    lemma_trimmed_twice(s.settings_prompt);
    lemma_defaults_trimmed();
}

proof fn lemma_defaults_trimmed()
    ensures
        DEFAULT_BASE_URL@.len() > 0,
        DEFAULT_MODEL@.len() > 0,
        DEFAULT_SYSTEM_PROMPT@.len() > 0,
        trimmed(DEFAULT_BASE_URL@) == DEFAULT_BASE_URL@,
        trimmed(DEFAULT_MODEL@) == DEFAULT_MODEL@,
        trimmed(DEFAULT_SYSTEM_PROMPT@) == DEFAULT_SYSTEM_PROMPT@,
{
    reveal_strlit("https://api.openai.com/v1");
    reveal_strlit("gpt-4o-mini");
    reveal_strlit(
        "你是一个专业翻译助手。请将以下文本翻译为{target_lang}，自动识别源语言，只输出翻译结果，不要添加任何解释。",
    );
    lemma_trimmed_already(DEFAULT_BASE_URL@);
    lemma_trimmed_already(DEFAULT_MODEL@);
    lemma_trimmed_already(DEFAULT_SYSTEM_PROMPT@);
}

/// To open the settings after they were saved, and to save them again, changes nothing in the
/// configuration.
pub proof fn lemma_save_again(s: AppView)
    ensures
        s.settings_saved().settings_opened().settings_saved().config == s.settings_saved().config,
{
    lemma_saved_settings_complete(s);
}

/// To open the settings and to leave them, without taking them over, keeps the configuration.
pub proof fn lemma_leave_settings(s: AppView)
    ensures
        s.settings_opened().settings_closed().config == s.config,
{
}

} // verus!
