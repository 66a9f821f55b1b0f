//! The configuration of the assistant.

use crate::text::{
    lemma_replaced_absent, lemma_replaced_each, occurs, replace, replaced,
};
use vstd::prelude::*;

verus! {

/// The placeholder of the system prompt that stands for the target language.
pub const TARGET_PLACEHOLDER: &'static str = "{target_lang}";

pub const DEFAULT_BASE_URL: &'static str = "https://api.openai.com/v1";

pub const DEFAULT_MODEL: &'static str = "gpt-4o-mini";

pub const DEFAULT_TARGET_LANG: &'static str = "英文";

pub const DEFAULT_SYSTEM_PROMPT: &'static str =
    "你是一个专业翻译助手。请将以下文本翻译为{target_lang}，自动识别源语言，只输出翻译结果，不要添加任何解释。";

/// The languages that can be picked as a target.
pub const TARGET_LANGUAGES: [&'static str; 13] = [
    "中文", "英文", "日文", "韩文", "法文", "德文", "西班牙文", "俄文", "葡萄牙文",
    "意大利文", "阿拉伯文", "泰文", "越南文",
];

/// What the assistant is configured with.
#[derive(Debug)]
pub struct Config {
    pub api_key: String,
    pub base_url: String,
    pub model: String,
    /// What the service is asked to do; `{target_lang}` in it stands for the target language.
    pub system_prompt: String,
    pub target_lang: String,
}

/// The contents of a `Config`.
pub struct ConfigView {
    pub api_key: Seq<char>,
    pub base_url: Seq<char>,
    pub model: Seq<char>,
    pub system_prompt: Seq<char>,
    pub target_lang: Seq<char>,
}

impl View for Config {
    type V = ConfigView;

    open spec fn view(&self) -> ConfigView {
        ConfigView {
            api_key: self.api_key@,
            base_url: self.base_url@,
            model: self.model@,
            system_prompt: self.system_prompt@,
            target_lang: self.target_lang@,
        }
    }
}

impl Clone for Config {
    fn clone(&self) -> (c: Self)
        ensures
            c@ == self@,
    {
        Config {
            api_key: self.api_key.clone(),
            base_url: self.base_url.clone(),
            model: self.model.clone(),
            system_prompt: self.system_prompt.clone(),
            target_lang: self.target_lang.clone(),
        }
    }
}

/// A configuration as it stands in the configuration file, where any entry may be missing.
#[derive(Debug)]
pub struct StoredConfig {
    pub api_key: Option<String>,
    pub base_url: Option<String>,
    pub model: Option<String>,
    pub system_prompt: Option<String>,
    pub target_lang: Option<String>,
}

/// The contents of a `StoredConfig`.
pub struct StoredConfigView {
    pub api_key: Option<Seq<char>>,
    pub base_url: Option<Seq<char>>,
    pub model: Option<Seq<char>>,
    pub system_prompt: Option<Seq<char>>,
    pub target_lang: Option<Seq<char>>,
}

/// The contents of an optional string.
pub open spec fn opt_view(s: Option<String>) -> Option<Seq<char>> {
    match s {
        Some(s) => Some(s@),
        None => None,
    }
}

impl View for StoredConfig {
    type V = StoredConfigView;

    open spec fn view(&self) -> StoredConfigView {
        StoredConfigView {
            api_key: opt_view(self.api_key),
            base_url: opt_view(self.base_url),
            model: opt_view(self.model),
            system_prompt: opt_view(self.system_prompt),
            target_lang: opt_view(self.target_lang),
        }
    }
}

/// `value`, or `fallback` where there is none.
pub open spec fn or_else(value: Option<Seq<char>>, fallback: Seq<char>) -> Seq<char> {
    match value {
        Some(v) => v,
        None => fallback,
    }
}

impl ConfigView {
    /// The configuration of a first start.
    pub open spec fn initial() -> ConfigView {
        ConfigView {
            api_key: Seq::empty(),
            base_url: DEFAULT_BASE_URL@,
            model: DEFAULT_MODEL@,
            system_prompt: DEFAULT_SYSTEM_PROMPT@,
            target_lang: DEFAULT_TARGET_LANG@,
        }
    }

    /// The system prompt with the target language put in.
    pub open spec fn prompt(self) -> Seq<char> {
        replaced(self.system_prompt, TARGET_PLACEHOLDER@, self.target_lang)
    }

    /// The configuration with all its entries, as it is stored.
    pub open spec fn stored(self) -> StoredConfigView {
        StoredConfigView {
            api_key: Some(self.api_key),
            base_url: Some(self.base_url),
            model: Some(self.model),
            system_prompt: Some(self.system_prompt),
            target_lang: Some(self.target_lang),
        }
    }
}

impl StoredConfigView {
    /// The stored entries, with the initial ones in place of those that are missing.
    pub open spec fn completed(self) -> ConfigView {
        ConfigView {
            api_key: or_else(self.api_key, ConfigView::initial().api_key),
            base_url: or_else(self.base_url, ConfigView::initial().base_url),
            model: or_else(self.model, ConfigView::initial().model),
            system_prompt: or_else(self.system_prompt, ConfigView::initial().system_prompt),
            target_lang: or_else(self.target_lang, ConfigView::initial().target_lang),
        }
    }
}

pub fn default_base_url() -> (s: String)
    ensures
        s@ == "https://api.openai.com/v1"@,
{
    DEFAULT_BASE_URL.to_owned()
}

pub fn default_model() -> (s: String)
    ensures
        s@ == "gpt-4o-mini"@,
{
    DEFAULT_MODEL.to_owned()
}

pub fn default_system_prompt() -> (s: String)
    ensures
        s@ == DEFAULT_SYSTEM_PROMPT@,
{
    DEFAULT_SYSTEM_PROMPT.to_owned()
}

pub fn default_target_lang() -> (s: String)
    ensures
        s@ == "英文"@,
{
    DEFAULT_TARGET_LANG.to_owned()
}

impl Default for Config {
    fn default() -> (c: Self)
        ensures
            c@ == ConfigView::initial(),
    {
        Config {
            api_key: String::new(),
            base_url: default_base_url(),
            model: default_model(),
            system_prompt: default_system_prompt(),
            target_lang: default_target_lang(),
        }
    }
}

impl Config {
    /// The configuration to start with. `stored` is what the configuration file holds; it is
    /// `None` where there is no such file, or it could not be read or made out.
    pub fn load(stored: Option<StoredConfig>) -> (c: Config)
        ensures
            stored matches Some(s) ==> c@ == s@.completed(),
            stored is None ==> c@ == ConfigView::initial(),
            stored matches Some(s) ==> {
                &&& s.api_key matches Some(v) ==> c.api_key@ == v@
                &&& s.base_url matches Some(v) ==> c.base_url@ == v@
                &&& s.model matches Some(v) ==> c.model@ == v@
                &&& s.system_prompt matches Some(v) ==> c.system_prompt@ == v@
                &&& s.target_lang matches Some(v) ==> c.target_lang@ == v@
            },
    {
        match stored {
            Some(s) => Config {
                api_key: match s.api_key {
                    Some(v) => v,
                    None => String::new(),
                },
                base_url: match s.base_url {
                    Some(v) => v,
                    None => default_base_url(),
                },
                model: match s.model {
                    Some(v) => v,
                    None => default_model(),
                },
                system_prompt: match s.system_prompt {
                    Some(v) => v,
                    None => default_system_prompt(),
                },
                target_lang: match s.target_lang {
                    Some(v) => v,
                    None => default_target_lang(),
                },
            },
            None => Config::default(),
        }
    }

    /// What the configuration file is to hold.
    pub fn save(&self) -> (s: StoredConfig)
        ensures
            s@ == self@.stored(),
            s.api_key matches Some(v) && v@ == self.api_key@,
            s.base_url matches Some(v) && v@ == self.base_url@,
            s.model matches Some(v) && v@ == self.model@,
            s.system_prompt matches Some(v) && v@ == self.system_prompt@,
            s.target_lang matches Some(v) && v@ == self.target_lang@,
    {
        StoredConfig {
            api_key: Some(self.api_key.clone()),
            base_url: Some(self.base_url.clone()),
            model: Some(self.model.clone()),
            system_prompt: Some(self.system_prompt.clone()),
            target_lang: Some(self.target_lang.clone()),
        }
    }

    /// The system prompt with the target language in place of each placeholder.
    pub fn build_prompt(&self) -> (prompt: String)
        ensures
            prompt@ == replaced(self.system_prompt@, "{target_lang}"@, self.target_lang@),
            prompt@ == self@.prompt(),
    {
        proof {
            reveal_strlit("{target_lang}");
        }
        replace(self.system_prompt.as_str(), TARGET_PLACEHOLDER, self.target_lang.as_str())
    }
}

/// The directory under which the configuration file stands.
#[derive(Debug)]
pub enum ConfigBase<P> {
    /// The home directory.
    Home(P),
    /// A directory given by its name.
    Named(String),
}

/// Where the configuration file stands: a base, and below it a directory and a file.
#[derive(Debug)]
pub struct ConfigPath<P> {
    pub base: ConfigBase<P>,
    pub directory: String,
    pub file: String,
}

/// The place of the configuration file, where `home` is the home directory if there is one; the
/// current directory takes its place otherwise.
pub fn config_path<P>(home: Option<P>) -> (path: ConfigPath<P>)
    ensures
        home matches Some(h) ==> path.base == ConfigBase::Home(h),
        home is None ==> (path.base matches ConfigBase::Named(n) && n@ == "."@),
        path.directory@ == ".translator"@,
        path.file@ == "config.json"@,
{
    ConfigPath {
        base: match home {
            Some(h) => ConfigBase::Home(h),
            None => ConfigBase::Named(".".to_owned()),
        },
        directory: ".translator".to_owned(),
        file: "config.json".to_owned(),
    }
}

/// What is loaded is what was saved.
pub proof fn lemma_load_gives_back_save(c: ConfigView)
    ensures
        c.stored().completed() == c,
{
}

/// A stored configuration without entries is the initial one.
pub proof fn lemma_load_of_nothing(s: StoredConfigView)
    requires
        s.api_key is None,
        s.base_url is None,
        s.model is None,
        s.system_prompt is None,
        s.target_lang is None,
    ensures
        s.completed() == ConfigView::initial(),
{
}

/// Each placeholder of the system prompt is replaced by the target language, and what stands
/// before and after it is treated in the same way.
pub proof fn lemma_prompt_each_placeholder(c: ConfigView, before: Seq<char>, after: Seq<char>)
    requires
        c.system_prompt == before + TARGET_PLACEHOLDER@ + after,
    ensures
        c.prompt() == (ConfigView { system_prompt: before, ..c }).prompt() + c.target_lang + (
        ConfigView { system_prompt: after, ..c }).prompt(),
{
    reveal_strlit("{target_lang}");
    lemma_replaced_each(before, TARGET_PLACEHOLDER@, after, c.target_lang);
}

/// A system prompt without a placeholder is used as it is.
pub proof fn lemma_prompt_without_placeholder(c: ConfigView)
    requires
        !occurs(TARGET_PLACEHOLDER@, c.system_prompt),
    ensures
        c.prompt() == c.system_prompt,
{
    lemma_replaced_absent(c.system_prompt, TARGET_PLACEHOLDER@, c.target_lang);
}

} // verus!
