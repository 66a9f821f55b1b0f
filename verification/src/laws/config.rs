//! Laws of the configuration.

use crate::config::{
    opt_view, Config, ConfigView, StoredConfig, StoredConfigView, TARGET_LANGUAGES,
};
use crate::text::{lemma_replaced_absent, lemma_replaced_each, occurs};
use vstd::prelude::*;

verus! {

/// The contents of an optional text are those of the text, if there is one, empty or not.
pub proof fn lemma_optional_contents(s: Option<String>)
    ensures
        s matches Some(t) ==> opt_view(s) == Some(t@),
        s is None ==> opt_view(s) == None::<Seq<char>>,
{
}

/// The languages that can be picked, in the order in which they are offered.
pub proof fn lemma_languages_offered()
    ensures
        TARGET_LANGUAGES@.map_values(|l: &'static str| l@) == seq![
            "中文"@, "英文"@, "日文"@, "韩文"@, "法文"@, "德文"@, "西班牙文"@, "俄文"@,
            "葡萄牙文"@, "意大利文"@, "阿拉伯文"@, "泰文"@, "越南文"@,
        ],
{
}

/// The contents of a configuration are its entries, each for itself.
pub proof fn lemma_config_contents(c: Config)
    ensures
        c@.api_key == c.api_key@,
        c@.base_url == c.base_url@,
        c@.model == c.model@,
        c@.system_prompt == c.system_prompt@,
        c@.target_lang == c.target_lang@,
{
}

/// What is saved are the entries of the configuration, each under its own name.
pub proof fn lemma_saved_entries(c: ConfigView)
    ensures
        c.stored().api_key == Some(c.api_key),
        c.stored().base_url == Some(c.base_url),
        c.stored().model == Some(c.model),
        c.stored().system_prompt == Some(c.system_prompt),
        c.stored().target_lang == Some(c.target_lang),
{
}

/// An entry that is stored is loaded as it is, whatever the other entries are, and two stored
/// configurations that differ in it are loaded as different ones.
pub proof fn lemma_stored_entries_are_loaded(s: StoredConfigView)
    ensures
        s.api_key matches Some(v) ==> s.completed().api_key == v,
        s.base_url matches Some(v) ==> s.completed().base_url == v,
        s.model matches Some(v) ==> s.completed().model == v,
        s.system_prompt matches Some(v) ==> s.completed().system_prompt == v,
        s.target_lang matches Some(v) ==> s.completed().target_lang == v,
{
}

/// An entry that is missing is loaded as on a first start, whatever the other entries are.
pub proof fn lemma_missing_entries_are_initial(s: StoredConfigView)
    ensures
        s.api_key is None ==> s.completed().api_key == ""@,
        s.base_url is None ==> s.completed().base_url == "https://api.openai.com/v1"@,
        s.model is None ==> s.completed().model == "gpt-4o-mini"@,
        s.system_prompt is None ==> s.completed().system_prompt
            == "你是一个专业翻译助手。请将以下文本翻译为{target_lang}，自动识别源语言，只输出翻译结果，不要添加任何解释。"@,
        s.target_lang is None ==> s.completed().target_lang == "英文"@,
{
    reveal_strlit("");
    assert(""@ == Seq::<char>::empty());
}

/// What is saved and then loaded is entry by entry what it was.
pub proof fn lemma_saved_then_loaded(c: Config, stored: StoredConfig, again: Config)
    requires
        stored@ == c@.stored(),
        again@ == stored@.completed(),
    ensures
        again.api_key@ == c.api_key@,
        again.base_url@ == c.base_url@,
        again.model@ == c.model@,
        again.system_prompt@ == c.system_prompt@,
        again.target_lang@ == c.target_lang@,
{
}

/// The target language stands in the prompt in the place of the placeholder, between what stood
/// before it and what stood after it.
pub proof fn lemma_prompt_names_the_language(
    c: ConfigView,
    before: Seq<char>,
    after: Seq<char>,
)
    requires
        c.system_prompt == before + "{target_lang}"@ + after,
        !occurs("{target_lang}"@, before),
        !occurs("{target_lang}"@, after),
    ensures
        c.prompt() == before + c.target_lang + after,
{
    reveal_strlit("{target_lang}");
    lemma_replaced_each(before, "{target_lang}"@, after, c.target_lang);
    lemma_replaced_absent(before, "{target_lang}"@, c.target_lang);
    lemma_replaced_absent(after, "{target_lang}"@, c.target_lang);
}

/// The key, the address and the model have no part in the prompt.
pub proof fn lemma_prompt_depends(c: ConfigView, d: ConfigView)
    requires
        c.system_prompt == d.system_prompt,
        c.target_lang == d.target_lang,
    ensures
        c.prompt() == d.prompt(),
{
}

} // verus!
