use fileog::category::{default_categories, Category, RuleType};
use fileog::file_item::{FileMetadata, FileType};
use fileog::settings::{AppSettings, LlmConfig, LlmSettings, PromptSettings};

#[test]
fn file_type_from_extension_covers_each_kind() {
    assert_eq!(FileType::from_extension("pdf"), FileType::Document);
    assert_eq!(FileType::from_extension("odp"), FileType::Document);
    assert_eq!(FileType::from_extension("jpg"), FileType::Image);
    assert_eq!(FileType::from_extension("heic"), FileType::Image);
    assert_eq!(FileType::from_extension("mkv"), FileType::Video);
    assert_eq!(FileType::from_extension("flac"), FileType::Audio);
    assert_eq!(FileType::from_extension("7z"), FileType::Archive);
    assert_eq!(FileType::from_extension("rs"), FileType::Code);
    assert_eq!(FileType::from_extension("sql"), FileType::Code);
    assert_eq!(FileType::from_extension("xyz"), FileType::Other);
    assert_eq!(FileType::from_extension(""), FileType::Other);
}

#[test]
fn file_type_from_extension_ignores_ascii_case() {
    assert_eq!(FileType::from_extension("PDF"), FileType::Document);
    assert_eq!(FileType::from_extension("JpG"), FileType::Image);
    assert_eq!(FileType::from_extension("Mp3"), FileType::Audio);
    assert_eq!(FileType::from_extension("ZIP"), FileType::Archive);
}

#[test]
fn default_categories_hold_the_seven_builtins() {
    let cats = default_categories();
    assert_eq!(cats.len(), 7);
    let ids: Vec<&str> = cats.iter().map(|c| c.id.as_str()).collect();
    assert_eq!(
        ids,
        vec!["documents", "images", "videos", "music", "code", "archives", "others"]
    );
    assert_eq!(cats[0].target_folder, "Documents");
    assert_eq!(cats[0].name, "文档");
    assert_eq!(cats[0].rules.len(), 1);
    assert_eq!(cats[0].rules[0].rule_type, RuleType::Extension);
    assert_eq!(cats[0].rules[0].priority, 1);
    assert!(cats[0].rules[0].pattern.contains("pdf"));
    assert_eq!(cats[6].rules.len(), 0);
}

#[test]
fn category_default_is_empty() {
    let c = Category::default();
    assert_eq!(c.id, "");
    assert_eq!(c.name, "");
    assert!(c.description.is_none());
    assert_eq!(c.target_folder, "");
    assert!(c.rules.is_empty());
    assert!(c.icon.is_none());
    assert!(c.color.is_none());
}

#[test]
fn file_metadata_default_is_empty() {
    let m = FileMetadata::default();
    assert!(m.mime_type.is_none());
    assert!(m.dimensions.is_none());
    assert!(m.duration.is_none());
    assert!(m.preview_text.is_none());
}

#[test]
fn app_settings_default_values() {
    let s = AppSettings::default();
    assert_eq!(s.theme, "system");
    assert_eq!(s.language, "zh-CN");
    assert!(!s.llm.enabled);
    assert!(!s.prompts.filename_prompt.is_empty());
}

#[test]
fn llm_settings_default_is_disabled() {
    let s = LlmSettings::default();
    assert!(!s.enabled);
    assert_eq!(s.config.provider, "openai");
}

#[test]
fn llm_config_default_values() {
    let c = LlmConfig::default();
    assert_eq!(c.provider, "openai");
    assert_eq!(c.api_key, "");
    assert_eq!(c.api_endpoint, "https://api.openai.com/v1");
    assert_eq!(c.model, "gpt-4o-mini");
    assert!(c.supports_vision);
}

#[test]
fn prompt_settings_default_templates_are_nonempty() {
    let p = PromptSettings::default();
    assert!(p.filename_prompt.contains("{{filename}}"));
    assert!(p.filename_prompt.contains("{{categories}}"));
    assert!(p.text_content_prompt.contains("{{content}}"));
    assert!(p.image_prompt.contains("{{categories}}"));
}
