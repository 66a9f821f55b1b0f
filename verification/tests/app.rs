use translator::api::TranslateEvent;
use translator::app::{non_empty_or, App, Screen, TranslateState};
use translator::config::{Config, DEFAULT_SYSTEM_PROMPT};

fn chunk(s: &str) -> TranslateEvent {
    TranslateEvent::Chunk(s.to_string())
}

fn ready(text: &str) -> App {
    let mut config = Config::default();
    config.api_key = " k ".to_string();
    let mut app = App::new(config);
    app.source_text = text.to_string();
    app
}

#[test]
fn first_state() {
    let mut config = Config::default();
    config.model = "m".to_string();
    let app = App::new(config);
    assert_eq!(app.screen, Screen::Main);
    assert_eq!(app.translate_state, TranslateState::Idle);
    assert_eq!(app.status_msg, "就绪");
    assert_eq!(app.settings_model, "m");
    assert_eq!(app.settings_prompt, DEFAULT_SYSTEM_PROMPT);
    assert!(!app.stream_open && !app.test_open && !app.target_lang_manually_set);
}

#[test]
fn fallbacks() {
    assert_eq!(non_empty_or("  x ", "y"), "x");
    assert_eq!(non_empty_or(" \u{3000}\n", "y"), "y");
    assert_eq!(non_empty_or("", " y "), " y ");
}

#[test]
fn start_without_text() {
    let mut app = ready(" \n ");
    app.target_text = "old".to_string();
    assert!(app.start_translation().is_none());
    assert_eq!(app.status_msg, "请输入要翻译的文本");
    assert_eq!(app.target_text, "old");
    assert_eq!(app.translate_state, TranslateState::Idle);
}

#[test]
fn start_without_key() {
    let mut app = ready("text");
    app.config.api_key = "\t".to_string();
    assert!(app.start_translation().is_none());
    assert_eq!(app.status_msg, "请先在设置中配置 API Key");
    app.source_text.clear();
    assert!(app.start_translation().is_none());
    assert_eq!(app.status_msg, "请输入要翻译的文本");
}

#[test]
fn start_of_a_translation() {
    let mut app = ready("  你好 \n");
    app.target_text = "old".to_string();
    let job = app.start_translation().unwrap();
    assert_eq!(job.text, "你好");
    assert_eq!(job.api_key, " k ");
    assert_eq!(job.base_url, "https://api.openai.com/v1");
    assert_eq!(job.model, "gpt-4o-mini");
    assert_eq!(job.prompt, DEFAULT_SYSTEM_PROMPT.replace("{target_lang}", "英文"));
    assert_eq!(job.stored.target_lang.as_deref(), Some("英文"));
    assert_eq!(app.config.target_lang, "英文");
    assert_eq!(app.target_text, "");
    assert_eq!(app.status_msg, "正在翻译...");
    assert_eq!(app.translate_state, TranslateState::Running);
    assert!(app.stream_open);

    let job = ready("hello").start_translation().unwrap();
    assert_eq!(job.prompt, DEFAULT_SYSTEM_PROMPT.replace("{target_lang}", "中文"));
    assert_eq!(ready("hello").start_detected(true).unwrap().stored.target_lang.unwrap(), "英文");
}

#[test]
fn picked_language_holds_once() {
    let mut app = ready("hello");
    app.pick_language("法文".to_string());
    assert!(app.target_lang_manually_set);
    app.source_text.clear();
    assert!(app.start_translation().is_none());
    assert!(app.target_lang_manually_set);
    app.source_text = "hello".to_string();
    let job = app.start_translation().unwrap();
    assert_eq!(job.stored.target_lang.as_deref(), Some("法文"));
    assert!(!app.target_lang_manually_set);
    let job = app.start_translation().unwrap();
    assert_eq!(job.stored.target_lang.as_deref(), Some("中文"));
}

#[test]
fn picking_the_same_language_is_no_pick() {
    let mut app = ready("hello");
    app.pick_language("英文".to_string());
    assert!(!app.target_lang_manually_set);
}

#[test]
fn events_of_a_translation() {
    let mut app = ready("hello");
    app.start_translation();
    assert!(!app.poll_stream(vec![chunk("你"), chunk("好")]));
    assert_eq!(app.target_text, "你好");
    assert_eq!(app.translate_state, TranslateState::Running);
    assert!(!app.poll_stream(Vec::new()));
    assert!(app.poll_stream(vec![chunk("！"), TranslateEvent::Done]));
    assert_eq!(app.target_text, "你好！");
    assert_eq!(app.status_msg, "翻译完成");
    assert_eq!(app.translate_state, TranslateState::Idle);
    assert!(!app.stream_open);
    assert!(!app.poll_stream(vec![chunk("late")]));
    assert_eq!(app.target_text, "你好！");
}

#[test]
fn portions_do_not_matter() {
    let mut one = ready("hello");
    let mut two = ready("hello");
    one.start_translation();
    two.start_translation();
    one.poll_stream(vec![chunk("a"), chunk("b"), TranslateEvent::Done]);
    two.poll_stream(vec![chunk("a")]);
    two.poll_stream(vec![chunk("b"), TranslateEvent::Done]);
    assert_eq!(format!("{:?}", one), format!("{:?}", two));
}

#[test]
fn failed_translation() {
    let mut app = ready("hello");
    app.start_translation();
    assert!(app.poll_stream(vec![TranslateEvent::Error("x".to_string())]));
    assert_eq!(app.status_msg, "错误: x");
    assert_eq!(app.translate_state, TranslateState::Idle);
}

#[test]
fn events_after_the_end_in_one_portion() {
    let mut app = ready("hello");
    app.start_translation();
    assert!(app.poll_stream(vec![TranslateEvent::Done, chunk("more")]));
    assert_eq!(app.target_text, "more");
    assert!(!app.stream_open);
}

#[test]
fn cancelled_translation_is_silent() {
    let mut app = ready("hello");
    assert!(!app.cancel_translation());
    app.start_translation();
    app.poll_stream(vec![chunk("a")]);
    assert!(app.cancel_translation());
    assert_eq!(app.translate_state, TranslateState::Idle);
    assert_eq!(app.status_msg, "正在翻译...");
    assert!(!app.poll_stream(vec![chunk("b"), TranslateEvent::Done]));
    assert_eq!(app.target_text, "a");
}

#[test]
fn clearing() {
    let mut app = ready("hello");
    assert!(!app.clear());
    app.source_text = "x".to_string();
    app.start_translation();
    app.poll_stream(vec![chunk("a")]);
    assert!(app.clear());
    assert_eq!((app.source_text.as_str(), app.target_text.as_str()), ("", ""));
    assert_eq!(app.status_msg, "已清空");
    assert!(!app.stream_open);
}

#[test]
fn copying() {
    let mut app = ready("hello");
    assert_eq!(app.text_to_copy(), None);
    app.target_text = "译文".to_string();
    assert_eq!(app.text_to_copy().as_deref(), Some("译文"));
    app.note_copied();
    assert_eq!(app.status_msg, "已复制到剪贴板");
}

#[test]
fn connection_test() {
    let mut app = ready("hello");
    app.settings_api_key = "  ".to_string();
    assert!(app.start_test().is_none());
    assert_eq!(app.settings_test_status, "请先输入 API Key");
    app.settings_api_key = " key ".to_string();
    app.settings_base_url = " ".to_string();
    app.settings_model = " m ".to_string();
    let job = app.start_test().unwrap();
    assert_eq!((job.api_key.as_str(), job.model.as_str()), ("key", "m"));
    assert_eq!(job.base_url, "https://api.openai.com/v1");
    assert_eq!(app.translate_state, TranslateState::Testing);
    assert_eq!(app.settings_test_status, "测试中...");
    app.poll_test(None);
    assert!(app.test_open);
    app.poll_test(Some(Ok("好".to_string())));
    assert_eq!(app.settings_test_status, "✓ 好");
    assert_eq!(app.translate_state, TranslateState::Idle);
    app.poll_test(Some(Err("late".to_string())));
    assert_eq!(app.settings_test_status, "✓ 好");
    app.start_test();
    app.poll_test(Some(Err("bad".to_string())));
    assert_eq!(app.settings_test_status, "✗ bad");
}

#[test]
fn updates() {
    let mut app = ready("hello");
    let step = app.update(vec![chunk("x")], None);
    assert!(!step.stream_ended && !step.repaint);
    assert_eq!(app.target_text, "");
    app.start_translation();
    let step = app.update(vec![chunk("x")], None);
    assert!(!step.stream_ended && step.repaint);
    let step = app.update(vec![TranslateEvent::Done], Some(Ok("unasked".to_string())));
    assert!(step.stream_ended && !step.repaint);
    assert_eq!(app.settings_test_status, "");
    app.settings_api_key = "k".to_string();
    app.start_test();
    assert!(app.update(Vec::new(), None).repaint);
    assert!(!app.update(Vec::new(), Some(Ok("好".to_string()))).repaint);
}

#[test]
fn never_waiting_for_nothing() {
    let mut app = ready("hello");
    let sound = |app: &App| {
        (app.translate_state != TranslateState::Running || app.stream_open)
            && (app.translate_state != TranslateState::Testing || app.test_open)
    };
    app.settings_api_key = "k".to_string();
    app.start_translation();
    assert!(sound(&app));
    app.start_test();
    assert!(sound(&app));
    app.poll_stream(vec![TranslateEvent::Done]);
    assert!(sound(&app));
    app.poll_test(Some(Ok(String::new())));
    assert!(sound(&app));
    app.start_translation();
    app.cancel_translation();
    assert!(sound(&app));
}

#[test]
fn settings() {
    let mut app = ready("hello");
    app.settings_show_api_key = true;
    app.settings_test_status = "✓".to_string();
    app.open_settings();
    assert_eq!(app.screen, Screen::Settings);
    assert_eq!(app.settings_api_key, " k ");
    assert_eq!(app.settings_test_status, "");
    assert!(!app.settings_show_api_key);
    app.settings_model = "other".to_string();
    app.close_settings();
    assert_eq!(app.screen, Screen::Main);
    assert_eq!(app.config.model, "gpt-4o-mini");
}

#[test]
fn saving_settings() {
    let mut app = ready("hello");
    app.pick_language("泰文".to_string());
    app.open_settings();
    app.settings_base_url = " http://h/ ".to_string();
    app.settings_model = "  ".to_string();
    app.settings_prompt = " p {target_lang} ".to_string();
    let stored = app.save_settings();
    assert_eq!(app.screen, Screen::Main);
    assert_eq!(stored.api_key.as_deref(), Some("k"));
    assert_eq!(stored.base_url.as_deref(), Some("http://h/"));
    assert_eq!(stored.model.as_deref(), Some("gpt-4o-mini"));
    assert_eq!(stored.system_prompt.as_deref(), Some("p {target_lang}"));
    assert_eq!(stored.target_lang.as_deref(), Some("泰文"));
    let before = format!("{:?}", app.config);
    app.open_settings();
    app.save_settings();
    assert_eq!(format!("{:?}", app.config), before);
}

#[test]
fn restoring_the_prompt() {
    let mut app = ready("hello");
    app.settings_prompt = "mine".to_string();
    app.restore_prompt();
    assert_eq!(app.settings_prompt, DEFAULT_SYSTEM_PROMPT);
    app.settings_prompt = " \n".to_string();
    app.save_settings();
    assert_eq!(app.config.system_prompt, DEFAULT_SYSTEM_PROMPT);
}

#[test]
fn requests_of_the_jobs() {
    let mut app = ready("hi");
    app.config.system_prompt = "to {target_lang}".to_string();
    app.config.base_url = "http://h/".to_string();
    let r = app.start_translation().unwrap().request();
    assert_eq!(r.url, "http://h/chat/completions");
    assert_eq!(r.authorization, "Bearer  k ");
    assert_eq!(
        r.body,
        "{\"messages\":[{\"content\":\"to 中文\\n\\nhi\",\"role\":\"user\"}],\
         \"model\":\"gpt-4o-mini\",\"stream\":true}"
    );
    assert_eq!(r.timeout_secs, 60);
    app.settings_api_key = "k".to_string();
    let r = app.start_test().unwrap().request();
    assert_eq!(r.authorization, "Bearer k");
    assert_eq!(
        r.body,
        "{\"max_tokens\":5,\"messages\":[{\"content\":\"Hi\",\"role\":\"user\"}],\
         \"model\":\"gpt-4o-mini\"}"
    );
    assert_eq!(r.timeout_secs, 15);
}

#[test]
fn asking_while_one_is_running() {
    let mut app = ready("hello");
    let before = format!("{:?}", app);
    assert!(app.ask_translation(true).is_none());
    assert_eq!(format!("{:?}", app), before);
    assert_eq!(app.ask_translation(false).unwrap().text, "hello");
    assert_eq!(app.translate_state, TranslateState::Running);
    app.poll_stream(vec![chunk("a")]);
    assert!(app.ask_translation(app.is_translating()).is_none());
    assert_eq!(app.target_text, "a");
    app.source_text.clear();
    assert!(app.ask_translation(false).is_none());
    assert_eq!(app.status_msg, "请输入要翻译的文本");
}

#[test]
fn asking_for_a_test_while_one_is_under_way() {
    let mut app = ready("hello");
    app.settings_api_key = "k".to_string();
    let before = format!("{:?}", app);
    assert!(app.ask_test(true).is_none());
    assert_eq!(format!("{:?}", app), before);
    assert_eq!(app.ask_test(false).unwrap().api_key, "k");
    assert_eq!(app.translate_state, TranslateState::Testing);
    assert!(app.ask_test(app.is_testing()).is_none());
    app.settings_api_key.clear();
    assert!(app.ask_test(false).is_none());
    assert_eq!(app.settings_test_status, "请先输入 API Key");
}
