use translator::app::App;
use translator::api::TranslateEvent;
use translator::config::Config;
use translator::display::{next_font_path, TargetPanel, Tone, CJK_FONT_PATHS};

fn app() -> App {
    let mut config = Config::default();
    config.api_key = "k".to_string();
    let mut app = App::new(config);
    app.source_text = "x".to_string();
    app.settings_api_key = "k".to_string();
    app
}

#[test]
fn tones_of_the_status() {
    let mut app = app();
    assert_eq!(app.status_tone(), Tone::Muted);
    app.start_translation();
    assert_eq!(app.status_tone(), Tone::Muted);
    app.poll_stream(vec![TranslateEvent::Error("复制".to_string())]);
    assert_eq!(app.status_tone(), Tone::Error);
    app.start_translation();
    app.poll_stream(vec![TranslateEvent::Done]);
    assert_eq!(app.status_tone(), Tone::Success);
    app.clear();
    assert_eq!(app.status_tone(), Tone::Muted);
    app.note_copied();
    assert_eq!(app.status_tone(), Tone::Success);
    app.status_msg = "翻译完成了".to_string();
    assert_eq!(app.status_tone(), Tone::Muted);
}

#[test]
fn tones_of_the_test() {
    let mut app = app();
    assert_eq!(app.test_tone(), Tone::Muted);
    app.start_test();
    assert_eq!(app.test_tone(), Tone::Muted);
    app.poll_test(Some(Ok(String::new())));
    assert_eq!(app.test_tone(), Tone::Success);
    app.start_test();
    app.poll_test(Some(Err("✓".to_string())));
    assert_eq!(app.test_tone(), Tone::Error);
}

#[test]
fn labels() {
    let mut app = app();
    assert_eq!(app.translate_label(), "翻译  Ctrl+Enter");
    assert_eq!(app.test_label(), "测试连接");
    app.start_translation();
    assert!(app.is_translating() && !app.is_testing());
    assert_eq!(app.translate_label(), "翻译中...");
    app.start_test();
    assert!(!app.is_translating() && app.is_testing());
    assert_eq!(app.test_label(), "测试中...");
}

#[test]
fn target_panel() {
    let mut app = app();
    assert!(matches!(app.target_panel(), TargetPanel::Hint("翻译结果将在这里显示...")));
    app.target_text = "t".to_string();
    assert!(matches!(app.target_panel(), TargetPanel::Text("t")));
}

#[test]
fn font_files() {
    assert_eq!(next_font_path(0), Some("/System/Library/Fonts/PingFang.ttc"));
    assert_eq!(next_font_path(1), Some("/System/Library/Fonts/STHeiti Light.ttc"));
    assert_eq!(
        next_font_path(2),
        Some("/usr/share/fonts/truetype/noto/NotoSansCJK-Regular.ttc")
    );
    assert_eq!(next_font_path(3), Some("C:\\Windows\\Fonts\\msyh.ttc"));
    assert_eq!(next_font_path(4), None);
    assert_eq!(CJK_FONT_PATHS.len(), 4);
}
