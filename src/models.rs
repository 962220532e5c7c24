//! The issue tracker's records, as plain values.

use vstd::prelude::*;

verus! {

/// A tracker status category, known by its integer code.
#[derive(Debug, Clone, Copy, PartialEq, Eq, Structural)]
pub enum StatusCategoryId {
    Backlog,
    Todo,
    InProgress,
    InQA,
    Done,
}

pub open spec fn status_category_code(s: StatusCategoryId) -> u64 {
    match s {
        StatusCategoryId::Backlog => 10000,
        StatusCategoryId::Todo => 10005,
        StatusCategoryId::InProgress => 3,
        StatusCategoryId::InQA => 10006,
        StatusCategoryId::Done => 10002,
    }
}

impl StatusCategoryId {
    /// The tracker's code for this category.
    pub fn code(&self) -> (r: u64)
        ensures
            r == status_category_code(*self),
    {
        match self {
            StatusCategoryId::Backlog => 10000,
            StatusCategoryId::Todo => 10005,
            StatusCategoryId::InProgress => 3,
            StatusCategoryId::InQA => 10006,
            StatusCategoryId::Done => 10002,
        }
    }

    /// The category with the given code, if there is one.
    pub fn from_code(code: u64) -> (r: Option<StatusCategoryId>)
        ensures
            match r {
                Some(s) => status_category_code(s) == code,
                None => forall|s: StatusCategoryId| status_category_code(s) != code,
            },
    {
        match code {
            10000 => Some(StatusCategoryId::Backlog),
            10005 => Some(StatusCategoryId::Todo),
            3 => Some(StatusCategoryId::InProgress),
            10006 => Some(StatusCategoryId::InQA),
            10002 => Some(StatusCategoryId::Done),
            _ => None,
        }
    }
}

/// How an issue was resolved, known by its integer code.
#[derive(Debug, Clone, Copy, PartialEq, Eq, Structural)]
pub enum Resolutions {
    Done,
    WonTDo,
    Duplicate,
    CannotReproduce,
}

pub open spec fn resolution_code(r: Resolutions) -> u64 {
    match r {
        Resolutions::Done => 10000,
        Resolutions::WonTDo => 10001,
        Resolutions::Duplicate => 10002,
        Resolutions::CannotReproduce => 10003,
    }
}

impl Resolutions {
    /// The tracker's code for this resolution.
    pub fn code(&self) -> (r: u64)
        ensures
            r == resolution_code(*self),
    {
        match self {
            Resolutions::Done => 10000,
            Resolutions::WonTDo => 10001,
            Resolutions::Duplicate => 10002,
            Resolutions::CannotReproduce => 10003,
        }
    }

    /// The resolution with the given code, if there is one.
    pub fn from_code(code: u64) -> (r: Option<Resolutions>)
        ensures
            match r {
                Some(x) => resolution_code(x) == code,
                None => forall|x: Resolutions| resolution_code(x) != code,
            },
    {
        match code {
            10000 => Some(Resolutions::Done),
            10001 => Some(Resolutions::WonTDo),
            10002 => Some(Resolutions::Duplicate),
            10003 => Some(Resolutions::CannotReproduce),
            _ => None,
        }
    }
}

/// Codes and categories are in one-to-one correspondence.
pub proof fn lemma_codes_distinct(s: StatusCategoryId, r: Resolutions, a: StatusCategoryId, b: Resolutions)
    ensures
        status_category_code(s) == status_category_code(a) ==> s == a,
        resolution_code(r) == resolution_code(b) ==> r == b,
{
}

/// The name under which a value is written in the tracker's document format.
pub trait AsStr {
    spec fn name_view(&self) -> Seq<char>;

    fn as_str(&self) -> (r: &'static str)
        ensures
            r@ == self.name_view(),
    ;
}

/// A request to create an issue.
#[derive(Debug, Clone)]
pub struct JiraIssue {
    pub fields: IssueFields,
}

#[derive(Debug, Clone)]
pub struct IssueFields {
    pub project: Project,
    pub summary: String,
    pub description: String,
    pub issuetype: IssueType,
    pub status_category: Option<StatusCategory>,
}

#[derive(Debug, Clone)]
pub struct Project {
    pub key: String,
    pub id: String,
}

impl Default for Project {
    /// The project that reports go to.
    fn default() -> (r: Project)
        ensures
            r.key@ == "Cells Dev"@,
            r.id@ == "10000"@,
    {
        Project { key: String::from_str("Cells Dev"), id: String::from_str("10000") }
    }
}

#[derive(Debug, Clone)]
pub struct IssueType {
    pub name: Option<String>,
    pub id: String,
}

impl Default for IssueType {
    /// The issue type that reports are filed under.
    fn default() -> (r: IssueType)
        ensures
            r.name is None,
            r.id@ == "10004"@,
    {
        IssueType { name: None, id: String::from_str("10004") }
    }
}

#[derive(Debug, Clone)]
pub struct StatusCategory {
    pub id: StatusCategoryId,
    pub key: String,
    pub color_name: String,
    pub name: String,
}

/// A rich-text document of the tracker.
#[derive(Debug, Clone)]
pub struct JiraDescription {
    pub kind: String,
    pub version: u32,
    pub content: Vec<JiraContent>,
}

#[derive(Debug, Clone)]
pub struct JiraContent {
    pub content: Vec<JiraText>,
    pub kind: String,
}

#[derive(Debug, Clone, Copy, PartialEq, Eq, Structural)]
pub enum JiraContentType {
    Paragraph,
    Heading,
    BulletList,
}

impl AsStr for JiraContentType {
    open spec fn name_view(&self) -> Seq<char> {
        match self {
            JiraContentType::Paragraph => "paragraph"@,
            JiraContentType::Heading => "heading"@,
            JiraContentType::BulletList => "bulletList"@,
        }
    }

    fn as_str(&self) -> (r: &'static str) {
        match self {
            JiraContentType::Paragraph => "paragraph",
            JiraContentType::Heading => "heading",
            JiraContentType::BulletList => "bulletList",
        }
    }
}

#[derive(Debug, Clone)]
pub struct JiraText {
    pub kind: String,
    pub text: String,
    pub marks: Option<Vec<JiraMark>>,
}

#[derive(Debug, Clone, Copy, PartialEq, Eq, Structural)]
pub enum JiraTextType {
    Text,
}

impl AsStr for JiraTextType {
    open spec fn name_view(&self) -> Seq<char> {
        "text"@
    }

    fn as_str(&self) -> (r: &'static str) {
        "text"
    }
}

#[derive(Debug, Clone)]
pub struct JiraMark {
    pub kind: String,
    pub attrs: Option<JiraMarkAttrs>,
}

#[derive(Debug, Clone)]
pub struct JiraMarkAttrs {
    pub href: String,
}

#[derive(Debug, Clone, Copy, PartialEq, Eq, Structural)]
pub enum JiraMarkType {
    Strong,
    Emphasis,
    Link,
}

impl AsStr for JiraMarkType {
    open spec fn name_view(&self) -> Seq<char> {
        match self {
            JiraMarkType::Strong => "strong"@,
            JiraMarkType::Emphasis => "em"@,
            JiraMarkType::Link => "link"@,
        }
    }

    fn as_str(&self) -> (r: &'static str) {
        match self {
            JiraMarkType::Strong => "strong",
            JiraMarkType::Emphasis => "em",
            JiraMarkType::Link => "link",
        }
    }
}

/// What the tracker answers to a successful creation.
#[derive(Debug, Clone)]
pub struct CreateJiraIssueResponse {
    pub key: String,
    pub id: String,
    pub url: String,
}

} // verus!
