//! Application settings: theme, language, classifier configuration, and
//! the prompt templates the classifier fills in.

use vstd::prelude::*;

verus! {

/// Everything the application persists as user preferences.
#[derive(Clone, Debug, PartialEq)]
pub struct AppSettings {
    pub theme: String,
    pub language: String,
    pub llm: LlmSettings,
    pub prompts: PromptSettings,
}

/// Whether classification is enabled, and how to reach the provider.
#[derive(Clone, Debug, PartialEq)]
pub struct LlmSettings {
    pub enabled: bool,
    pub config: LlmConfig,
}

/// How to reach a classification provider.
#[derive(Clone, Debug, PartialEq)]
pub struct LlmConfig {
    pub provider: String,
    pub api_key: String,
    pub api_endpoint: String,
    pub model: String,
    pub supports_vision: bool,
}

/// The prompt templates used for filename, text and image classification.
#[derive(Clone, Debug, PartialEq)]
pub struct PromptSettings {
    pub filename_prompt: String,
    pub text_content_prompt: String,
    pub image_prompt: String,
}

impl Default for AppSettings {
    /// System theme, Simplified Chinese, classifier disabled, default prompts.
    fn default() -> (r: Self)
        ensures
            r.theme@ == "system"@,
            r.language@ == "zh-CN"@,
            !r.llm.enabled,
            r.llm.config.provider@ == "openai"@,
            r.prompts.filename_prompt@.len() > 0,
    {
        AppSettings {
            theme: "system".to_owned(),
            language: "zh-CN".to_owned(),
            llm: LlmSettings::default(),
            prompts: PromptSettings::default(),
        }
    }
}

impl Default for LlmSettings {
    /// Classification starts disabled, with the default provider settings.
    fn default() -> (r: Self)
        ensures
            !r.enabled,
            r.config.provider@ == "openai"@,
    {
        LlmSettings { enabled: false, config: LlmConfig::default() }
    }
}

impl Default for LlmConfig {
    /// The stock provider endpoint and model, with no key configured.
    fn default() -> (r: Self)
        ensures
            r.provider@ == "openai"@,
            r.api_key@ == Seq::<char>::empty(),
            r.api_endpoint@ == "https://api.openai.com/v1"@,
            r.model@ == "gpt-4o-mini"@,
            r.supports_vision,
    {
        LlmConfig {
            provider: "openai".to_owned(),
            api_key: String::new(),
            api_endpoint: "https://api.openai.com/v1".to_owned(),
            model: "gpt-4o-mini".to_owned(),
            supports_vision: true,
        }
    }
}

impl Default for PromptSettings {
    /// The built-in prompt templates; each is nonempty.
    fn default() -> (r: Self)
        ensures
            r.filename_prompt@.len() > 0,
            r.text_content_prompt@.len() > 0,
            r.image_prompt@.len() > 0,
    {
        let filename_prompt =
            "分析以下文件名，判断该文件应该属于哪个分类。\n文件名: {{filename}}\n可用分类: {{categories}}\n请只返回最匹配的分类名称，不要包含其他内容。".to_owned();
        let text_content_prompt =
            "分析以下文件内容，判断该文件应该属于哪个分类。\n文件名: {{filename}}\n文件内容（前1000字符）:\n{{content}}\n可用分类: {{categories}}\n请只返回最匹配的分类名称，不要包含其他内容。".to_owned();
        let image_prompt =
            "分析这张图片的内容，判断它应该属于哪个分类。\n可用分类: {{categories}}\n请只返回最匹配的分类名称，不要包含其他内容。".to_owned();
        proof {
            reveal_strlit(
                "分析以下文件名，判断该文件应该属于哪个分类。\n文件名: {{filename}}\n可用分类: {{categories}}\n请只返回最匹配的分类名称，不要包含其他内容。",
            );
            reveal_strlit(
                "分析以下文件内容，判断该文件应该属于哪个分类。\n文件名: {{filename}}\n文件内容（前1000字符）:\n{{content}}\n可用分类: {{categories}}\n请只返回最匹配的分类名称，不要包含其他内容。",
            );
            reveal_strlit(
                "分析这张图片的内容，判断它应该属于哪个分类。\n可用分类: {{categories}}\n请只返回最匹配的分类名称，不要包含其他内容。",
            );
        }
        PromptSettings { filename_prompt, text_content_prompt, image_prompt }
    }
}

} // verus!
