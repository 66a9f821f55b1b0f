use translator::config::{
    config_path, default_base_url, default_model, default_system_prompt, default_target_lang,
    Config, ConfigBase, StoredConfig, DEFAULT_SYSTEM_PROMPT, TARGET_LANGUAGES,
};

fn fields(c: &Config) -> [&str; 5] {
    [&c.api_key, &c.base_url, &c.model, &c.system_prompt, &c.target_lang]
}

fn empty_file() -> StoredConfig {
    StoredConfig {
        api_key: None,
        base_url: None,
        model: None,
        system_prompt: None,
        target_lang: None,
    }
}

#[test]
fn defaults() {
    assert_eq!(default_base_url(), "https://api.openai.com/v1");
    assert_eq!(default_model(), "gpt-4o-mini");
    assert_eq!(default_target_lang(), "英文");
    assert_eq!(default_system_prompt(), DEFAULT_SYSTEM_PROMPT);
    let c = Config::default();
    assert_eq!(
        fields(&c),
        ["", "https://api.openai.com/v1", "gpt-4o-mini", DEFAULT_SYSTEM_PROMPT, "英文"]
    );
    assert_eq!(
        DEFAULT_SYSTEM_PROMPT,
        "你是一个专业翻译助手。请将以下文本翻译为{target_lang}，\
         自动识别源语言，只输出翻译结果，不要添加任何解释。"
    );
}

#[test]
fn languages() {
    assert_eq!(TARGET_LANGUAGES.len(), 13);
    assert_eq!(TARGET_LANGUAGES[0], "中文");
    assert_eq!(TARGET_LANGUAGES[12], "越南文");
    assert!(TARGET_LANGUAGES.contains(&default_target_lang().as_str()));
}

#[test]
fn nothing_stored() {
    let d = Config::default();
    assert_eq!(fields(&Config::load(None)), fields(&d));
    assert_eq!(fields(&Config::load(Some(empty_file()))), fields(&d));
}

#[test]
fn missing_entries_are_filled_in() {
    let mut file = empty_file();
    file.api_key = Some("k".to_string());
    file.model = Some(String::new());
    let c = Config::load(Some(file));
    assert_eq!(
        fields(&c),
        ["k", "https://api.openai.com/v1", "", DEFAULT_SYSTEM_PROMPT, "英文"]
    );
}

#[test]
fn saved_is_loaded() {
    let c = Config {
        api_key: "k".to_string(),
        base_url: "u".to_string(),
        model: String::new(),
        system_prompt: "p".to_string(),
        target_lang: "法文".to_string(),
    };
    let stored = c.save();
    assert_eq!(stored.model.as_deref(), Some(""));
    assert_eq!(stored.target_lang.as_deref(), Some("法文"));
    assert_eq!(fields(&Config::load(Some(stored))), fields(&c));
    assert_eq!(fields(&c.clone()), fields(&c));
}

#[test]
fn prompt() {
    let mut c = Config::default();
    c.target_lang = "日文".to_string();
    assert_eq!(
        c.build_prompt(),
        "你是一个专业翻译助手。请将以下文本翻译为日文，自动识别源语言，只输出翻译结果，不要添加任何解释。"
    );
    c.system_prompt = "{target_lang}, {target_lang}! {target_language}".to_string();
    assert_eq!(c.build_prompt(), "日文, 日文! {target_language}");
    c.system_prompt = "plain".to_string();
    assert_eq!(c.build_prompt(), "plain");
}

#[test]
fn place_of_the_file() {
    let path = config_path(Some("/home/u"));
    assert!(matches!(path.base, ConfigBase::Home("/home/u")));
    assert_eq!(path.directory, ".translator");
    assert_eq!(path.file, "config.json");
    match config_path::<u8>(None).base {
        ConfigBase::Named(name) => assert_eq!(name, "."),
        ConfigBase::Home(_) => panic!("there is no home"),
    }
}
