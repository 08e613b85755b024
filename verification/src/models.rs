//! The records that the library reads and returns.
use vstd::prelude::*;

verus! {

/// A workspace: a scanned root folder with its counts.
#[derive(Debug, Clone, PartialEq, Eq)]
pub struct Workspace {
    pub id: i64,
    pub name: String,
    pub path: String,
    pub created_at: String,
    pub video_count: i64,
    pub folder_count: i64,
}

/// A node of the folder tree.
#[derive(Debug, Clone, PartialEq, Eq)]
pub struct FolderNode {
    pub id: i64,
    pub parent_id: Option<i64>,
    pub name: String,
    pub path: String,
    pub video_count: i64,
    pub has_children: bool,
}

/// One page of a listing, with the number of matching records.
#[derive(Debug, Clone, PartialEq, Eq)]
pub struct PageResult<T> {
    pub total: i64,
    pub items: Vec<T>,
}

/// Filters, paging and order of the video listing.
#[derive(Debug, Clone, PartialEq, Eq)]
pub struct VideoQuery {
    pub workspace_id: Option<i64>,
    pub folder_id: Option<i64>,
    pub keyword: Option<String>,
    pub tag_ids: Option<Vec<i64>>,
    pub page: u32,
    pub page_size: u32,
    /// `name`, `size`, `duration`, `open_count` or `modified_at`.
    pub sort_by: Option<String>,
    /// `asc` or `desc`.
    pub sort_order: Option<String>,
}

/// New user-edited fields of a video; `None` keeps the stored value.
#[derive(Debug, Clone, PartialEq, Eq)]
pub struct VideoMetaUpdate {
    pub custom_title: Option<String>,
    pub notes: Option<String>,
}

/// A tag.
#[derive(Debug, Clone, PartialEq, Eq)]
pub struct Tag {
    pub id: i64,
    pub group_id: Option<i64>,
    pub name: String,
    pub color: String,
}

impl Tag {
    /// A copy of the tag.
    pub fn duplicate(&self) -> (res: Tag)
        ensures
            res == *self,
    {
        Tag {
            id: self.id,
            group_id: self.group_id,
            name: self.name.clone(),
            color: self.color.clone(),
        }
    }
}

/// A tag group.
#[derive(Debug, Clone, PartialEq, Eq)]
pub struct TagGroup {
    pub id: i64,
    pub name: String,
    pub sort_order: i64,
}

/// A tag group with the tags that belong to it.
#[derive(Debug, Clone, PartialEq, Eq)]
pub struct TagGroupWithTags {
    pub id: i64,
    pub name: String,
    pub sort_order: i64,
    pub tags: Vec<Tag>,
}

/// A tag to create (no `id`) or to update.
#[derive(Debug, Clone, PartialEq, Eq)]
pub struct TagInput {
    pub id: Option<i64>,
    pub group_id: Option<i64>,
    pub name: String,
    pub color: Option<String>,
}

/// A tag group to create (no `id`) or to update.
#[derive(Debug, Clone, PartialEq, Eq)]
pub struct TagGroupInput {
    pub id: Option<i64>,
    pub name: String,
    pub sort_order: Option<i64>,
}

/// Filters of the open-log listing; dates are `YYYY-MM-DD`.
#[derive(Debug, Clone, PartialEq, Eq)]
pub struct LogFilter {
    pub video_id: Option<i64>,
    pub start_date: Option<String>,
    pub end_date: Option<String>,
}

/// How many videos carry a tag.
#[derive(Debug, Clone, PartialEq, Eq)]
pub struct TagStat {
    pub tag_id: i64,
    pub tag_name: String,
    pub color: String,
    pub video_count: i64,
}

/// Outcome of one scan of a workspace.
#[derive(Debug, Clone, PartialEq, Eq)]
pub struct ScanResult {
    pub workspace_id: i64,
    pub added: u64,
    pub updated: u64,
    pub unchanged: u64,
    pub errors: Vec<String>,
}

} // verus!
