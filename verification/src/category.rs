//! Categories a file can be sorted into, their matching rules, and the
//! built-in defaults.

use vstd::prelude::*;

verus! {

/// A destination category with its matching rules and presentation hints.
#[derive(Clone, Debug, PartialEq)]
pub struct Category {
    pub id: String,
    pub name: String,
    pub description: Option<String>,
    pub target_folder: String,
    pub rules: Vec<CategoryRule>,
    pub icon: Option<String>,
    pub color: Option<String>,
}

/// One way a file can match a category.
#[derive(Clone, Debug, PartialEq)]
pub struct CategoryRule {
    pub rule_type: RuleType,
    pub pattern: String,
    pub priority: i32,
}

/// The kinds of matching a rule can ask for.
#[derive(Clone, Copy, Debug, PartialEq, Eq, Structural)]
pub enum RuleType {
    Extension,
    NameContains,
    NameRegex,
    MimeType,
    LlmKeyword,
}

impl Default for Category {
    /// An empty category: no id, no name, no rules.
    fn default() -> (r: Self)
        ensures
            r.id@ == Seq::<char>::empty(),
            r.name@ == Seq::<char>::empty(),
            r.description is None,
            r.target_folder@ == Seq::<char>::empty(),
            r.rules@.len() == 0,
            r.icon is None,
            r.color is None,
    {
        Category {
            id: String::new(),
            name: String::new(),
            description: None,
            target_folder: String::new(),
            rules: Vec::new(),
            icon: None,
            color: None,
        }
    }
}

fn extension_rule(pattern: &str) -> (r: CategoryRule)
    ensures
        r.rule_type == RuleType::Extension,
        r.pattern@ == pattern@,
        r.priority == 1,
{
    CategoryRule { rule_type: RuleType::Extension, pattern: pattern.to_owned(), priority: 1 }
}

/// The built-in categories: documents, images, videos, music, code,
/// archives, and a catch-all, each with one extension rule except the
/// catch-all, which has none.
pub fn default_categories() -> (r: Vec<Category>)
    ensures
        r@.len() == 7,
        r@[0].id@ == "documents"@ && r@[0].target_folder@ == "Documents"@ && r@[0].rules@.len()
            == 1,
        r@[1].id@ == "images"@ && r@[1].target_folder@ == "Images"@ && r@[1].rules@.len() == 1,
        r@[2].id@ == "videos"@ && r@[2].target_folder@ == "Videos"@ && r@[2].rules@.len() == 1,
        r@[3].id@ == "music"@ && r@[3].target_folder@ == "Music"@ && r@[3].rules@.len() == 1,
        r@[4].id@ == "code"@ && r@[4].target_folder@ == "Code"@ && r@[4].rules@.len() == 1,
        r@[5].id@ == "archives"@ && r@[5].target_folder@ == "Archives"@ && r@[5].rules@.len() == 1,
        r@[6].id@ == "others"@ && r@[6].target_folder@ == "Others"@ && r@[6].rules@.len() == 0,
{
    let mut r: Vec<Category> = Vec::new();
    let mut rules: Vec<CategoryRule> = Vec::new();
    rules.push(extension_rule("pdf,doc,docx,xls,xlsx,ppt,pptx,txt,rtf,odt"));
    r.push(
        Category {
            id: "documents".to_owned(),
            name: "文档".to_owned(),
            description: Some("PDF、Word、Excel 等文档文件".to_owned()),
            target_folder: "Documents".to_owned(),
            rules,
            icon: Some("file-text".to_owned()),
            color: Some("#3B82F6".to_owned()),
        },
    );
    let mut rules: Vec<CategoryRule> = Vec::new();
    rules.push(extension_rule("jpg,jpeg,png,gif,webp,svg,bmp,ico,tiff,heic"));
    r.push(
        Category {
            id: "images".to_owned(),
            name: "图片".to_owned(),
            description: Some("JPG、PNG、GIF 等图片文件".to_owned()),
            target_folder: "Images".to_owned(),
            rules,
            icon: Some("image".to_owned()),
            color: Some("#10B981".to_owned()),
        },
    );
    let mut rules: Vec<CategoryRule> = Vec::new();
    rules.push(extension_rule("mp4,mkv,avi,mov,wmv,flv,webm,m4v"));
    r.push(
        Category {
            id: "videos".to_owned(),
            name: "视频".to_owned(),
            description: Some("MP4、MKV、AVI 等视频文件".to_owned()),
            target_folder: "Videos".to_owned(),
            rules,
            icon: Some("video".to_owned()),
            color: Some("#8B5CF6".to_owned()),
        },
    );
    let mut rules: Vec<CategoryRule> = Vec::new();
    rules.push(extension_rule("mp3,flac,wav,aac,ogg,wma,m4a"));
    r.push(
        Category {
            id: "music".to_owned(),
            name: "音乐".to_owned(),
            description: Some("MP3、FLAC、WAV 等音频文件".to_owned()),
            target_folder: "Music".to_owned(),
            rules,
            icon: Some("music".to_owned()),
            color: Some("#F59E0B".to_owned()),
        },
    );
    let mut rules: Vec<CategoryRule> = Vec::new();
    rules.push(extension_rule("js,ts,jsx,tsx,py,rs,go,java,c,cpp,h,hpp,cs,rb,php"));
    r.push(
        Category {
            id: "code".to_owned(),
            name: "代码".to_owned(),
            description: Some("JS、Python、Rust 等代码文件".to_owned()),
            target_folder: "Code".to_owned(),
            rules,
            icon: Some("code".to_owned()),
            color: Some("#EC4899".to_owned()),
        },
    );
    let mut rules: Vec<CategoryRule> = Vec::new();
    rules.push(extension_rule("zip,rar,7z,tar,gz,bz2,xz"));
    r.push(
        Category {
            id: "archives".to_owned(),
            name: "压缩包".to_owned(),
            description: Some("ZIP、RAR、7z 等压缩文件".to_owned()),
            target_folder: "Archives".to_owned(),
            rules,
            icon: Some("archive".to_owned()),
            color: Some("#6366F1".to_owned()),
        },
    );
    r.push(
        Category {
            id: "others".to_owned(),
            name: "其他".to_owned(),
            description: Some("其他类型文件".to_owned()),
            target_folder: "Others".to_owned(),
            rules: Vec::new(),
            icon: Some("file".to_owned()),
            color: Some("#71717A".to_owned()),
        },
    );
    r
}

} // verus!
