//! Tags and tag groups: the tag tree shown to the user, the checks made on
//! new or edited tags, and the video–tag links written by the batch
//! operations.
use vstd::prelude::*;
use crate::models::{Tag, TagGroup, TagGroupInput, TagGroupWithTags, TagInput};
use crate::text::{trim, trim_str};

verus! {

// ---------------------------------------------------------------------------
// The tag tree
// ---------------------------------------------------------------------------

/// The ids of the groups, in order.
pub open spec fn group_ids(groups: Seq<TagGroup>) -> Seq<i64> {
    Seq::new(groups.len(), |i: int| groups[i].id)
}

/// The position of the first `g` in `ids`.
pub open spec fn first_index(ids: Seq<i64>, g: i64) -> Option<int>
    decreases ids.len(),
{
    if ids.len() == 0 {
        None
    } else if ids[0] == g {
        Some(0)
    } else {
        match first_index(ids.drop_first(), g) {
            Some(k) => Some(k + 1),
            None => None,
        }
    }
}

/// The group a tag is listed under: the first group with the tag's group
/// id; `None` (the default group) when the tag has no group id or no group
/// has it.
pub open spec fn home_of(ids: Seq<i64>, t: Tag) -> Option<int> {
    match t.group_id {
        Some(g) => first_index(ids, g),
        None => None,
    }
}

/// The tags, in order, that are listed under `h`.
pub open spec fn tags_with_home(tags: Seq<Tag>, ids: Seq<i64>, h: Option<int>) -> Seq<Tag>
    decreases tags.len(),
{
    if tags.len() == 0 {
        Seq::<Tag>::empty()
    } else {
        let rest = tags_with_home(tags.drop_last(), ids, h);
        if home_of(ids, tags.last()) == h {
            rest.push(tags.last())
        } else {
            rest
        }
    }
}

/// The number of tags listed under the first `k` groups.
pub open spec fn grouped_count(tags: Seq<Tag>, ids: Seq<i64>, k: nat) -> nat
    decreases k,
{
    if k == 0 {
        0
    } else {
        grouped_count(tags, ids, (k - 1) as nat) + tags_with_home(tags, ids, Some(k - 1)).len()
    }
}

/// The tag tree built from `groups` and `tags`.
pub open spec fn is_tag_tree(
    res: Seq<TagGroupWithTags>,
    groups: Seq<TagGroup>,
    tags: Seq<Tag>,
) -> bool {
    let ids = group_ids(groups);
    let rest = tags_with_home(tags, ids, None);
    &&& res.len() == groups.len() + if rest.len() > 0 {
        1int
    } else {
        0int
    }
    &&& forall|i: int|
        0 <= i < groups.len() ==> (#[trigger] res[i]).id == groups[i].id && res[i].name
            == groups[i].name && res[i].sort_order == groups[i].sort_order && res[i].tags@
            == tags_with_home(tags, ids, Some(i))
    &&& rest.len() > 0 ==> {
        let last = res[groups.len() as int];
        &&& last.id == 0
        &&& last.name@ == "默认"@
        &&& last.sort_order == 999
        &&& last.tags@ == rest
    }
}

proof fn lemma_first_index(ids: Seq<i64>, g: i64)
    ensures
        match first_index(ids, g) {
            Some(k) => 0 <= k < ids.len() && ids[k] == g && forall|j: int| 0 <= j < k ==> ids[j] != g,
            None => forall|j: int| 0 <= j < ids.len() ==> ids[j] != g,
        },
    decreases ids.len(),
{
    if ids.len() > 0 && ids[0] != g {
        let t = ids.drop_first();
        lemma_first_index(t, g);
        match first_index(t, g) {
            Some(k) => {
                assert forall|j: int| 0 <= j < k + 1 implies ids[j] != g by {
                    if j > 0 {
                        assert(ids[j] == t[j - 1]);
                    }
                }
            },
            None => {
                assert forall|j: int| 0 <= j < ids.len() implies ids[j] != g by {
                    if j > 0 {
                        assert(ids[j] == t[j - 1]);
                    }
                }
            },
        }
    }
}

/// Appending one tag adds one to the count of its own group and leaves the
/// other groups alone.
proof fn lemma_grouped_count_push(tags: Seq<Tag>, ids: Seq<i64>, t: Tag, k: nat)
    ensures
        grouped_count(tags.push(t), ids, k) == grouped_count(tags, ids, k) + if (home_of(ids, t) matches Some(
            h,
        ) && 0 <= h < k) {
            1nat
        } else {
            0nat
        },
    decreases k,
{
    if k > 0 {
        lemma_grouped_count_push(tags, ids, t, (k - 1) as nat);
        assert(tags.push(t).drop_last() =~= tags);
    }
}

proof fn lemma_grouped_count_empty(tags: Seq<Tag>, ids: Seq<i64>, k: nat)
    requires
        tags.len() == 0,
    ensures
        grouped_count(tags, ids, k) == 0,
    decreases k,
{
    if k > 0 {
        lemma_grouped_count_empty(tags, ids, (k - 1) as nat);
    }
}

/// Every tag listed under `h` is one of `tags` whose home is `h`.
proof fn lemma_listed_tags_have_home(tags: Seq<Tag>, ids: Seq<i64>, h: Option<int>)
    ensures
        forall|k: int|
            0 <= k < tags_with_home(tags, ids, h).len() ==> exists|j: int|
                0 <= j < tags.len() && tags[j] == #[trigger] tags_with_home(tags, ids, h)[k]
                    && home_of(ids, tags[j]) == h,
    decreases tags.len(),
{
    if tags.len() > 0 {
        let init = tags.drop_last();
        lemma_listed_tags_have_home(init, ids, h);
        let rest = tags_with_home(init, ids, h);
        let tw = tags_with_home(tags, ids, h);
        assert forall|k: int| 0 <= k < tw.len() implies exists|j: int|
            0 <= j < tags.len() && tags[j] == #[trigger] tw[k] && home_of(ids, tags[j]) == h by {
            if k < rest.len() {
                assert(tw[k] == rest[k]);
                let j = choose|j: int| 0 <= j < init.len() && init[j] == rest[k] && home_of(ids, init[j]) == h;
                assert(tags[j] == init[j]);
            } else {
                assert(tw[k] == tags[tags.len() - 1]);
            }
        }
    }
}

/// Tags whose home is group `i` carry the id of that group.
proof fn lemma_home_group_id(ids: Seq<i64>, t: Tag, i: int)
    requires
        home_of(ids, t) == Some(i),
    ensures
        t.group_id == Some(ids[i]),
{
    match t.group_id {
        Some(g) => {
            lemma_first_index(ids, g);
        },
        None => {},
    }
}

/// The tags of each real group come in the order of their ids when the
/// tags are read ordered by group and id (as the tag tree reads them):
/// within one group id the ids never fall.
pub proof fn law_group_tags_sorted_by_id(tags: Seq<Tag>, groups: Seq<TagGroup>, i: int)
    requires
        0 <= i < groups.len(),
        forall|a: int, b: int|
            0 <= a < b < tags.len() && #[trigger] tags[a].group_id == #[trigger] tags[b].group_id
                ==> tags[a].id <= tags[b].id,
    ensures
        forall|a: int, b: int|
            0 <= a < b < tags_with_home(tags, group_ids(groups), Some(i)).len() ==> (
            #[trigger] tags_with_home(tags, group_ids(groups), Some(i))[a]).id <= (
            #[trigger] tags_with_home(tags, group_ids(groups), Some(i))[b]).id,
    decreases tags.len(),
{
    let ids = group_ids(groups);
    if tags.len() > 0 {
        let init = tags.drop_last();
        assert forall|a: int, b: int|
            0 <= a < b < init.len() && #[trigger] init[a].group_id == #[trigger] init[b].group_id
                implies init[a].id <= init[b].id by {
            assert(init[a] == tags[a] && init[b] == tags[b]);
        }
        law_group_tags_sorted_by_id(init, groups, i);
        let last = tags.last();
        let rest = tags_with_home(init, ids, Some(i));
        if home_of(ids, last) == Some(i) {
            lemma_listed_tags_have_home(init, ids, Some(i));
            lemma_home_group_id(ids, last, i);
            let tw = tags_with_home(tags, ids, Some(i));
            assert forall|a: int, b: int| 0 <= a < b < tw.len() implies (#[trigger] tw[a]).id <= (
            #[trigger] tw[b]).id by {
                if b < rest.len() {
                    assert(tw[a] == rest[a] && tw[b] == rest[b]);
                } else {
                    assert(tw[b] == last);
                    assert(tw[a] == rest[a]);
                    let j = choose|j: int| 0 <= j < init.len() && init[j] == rest[a] && home_of(ids, init[j]) == Some(i);
                    lemma_home_group_id(ids, init[j], i);
                    assert(tags[j] == init[j]);
                    assert(tags[j].group_id == tags[tags.len() - 1].group_id);
                }
            }
        }
    }
}

/// Every tag appears once in the tag tree: the group lists together hold as
/// many tags as were read.
pub proof fn law_tag_tree_keeps_every_tag(tags: Seq<Tag>, groups: Seq<TagGroup>)
    ensures
        grouped_count(tags, group_ids(groups), groups.len()) + tags_with_home(
            tags,
            group_ids(groups),
            None,
        ).len() == tags.len(),
    decreases tags.len(),
{
    let ids = group_ids(groups);
    if tags.len() == 0 {
        lemma_grouped_count_empty(tags, ids, groups.len());
    } else {
        let init = tags.drop_last();
        let t = tags.last();
        law_tag_tree_keeps_every_tag(init, groups);
        assert(init.push(t) =~= tags);
        assert(ids.len() == groups.len());
        lemma_grouped_count_push(init, ids, t, groups.len());
        match t.group_id {
            Some(g) => {
                lemma_first_index(ids, g);
            },
            None => {},
        }
    }
}

/// The position of the first group with id `g`.
fn find_group(groups: &Vec<TagGroup>, g: i64) -> (res: Option<usize>)
    ensures
        res matches Some(k) ==> first_index(group_ids(groups@), g) == Some(k as int),
        res is None ==> first_index(group_ids(groups@), g) is None,
{
    let ghost ids = group_ids(groups@);
    let mut i: usize = 0;
    while i < groups.len()
        invariant
            ids == group_ids(groups@),
            i <= groups@.len(),
            forall|j: int| 0 <= j < i ==> ids[j] != g,
        decreases groups@.len() - i,
    {
        if groups[i].id == g {
            proof {
                lemma_first_index(ids, g);
                match first_index(ids, g) {
                    Some(k) => {
                        if k < i {
                            assert(ids[k] != g);
                        } else if k > i {
                            assert(ids[i as int] != g);
                        }
                    },
                    None => {
                        assert(ids[i as int] == g);
                    },
                }
            }
            return Some(i);
        }
        i = i + 1;
    }
    proof {
        lemma_first_index(ids, g);
        match first_index(ids, g) {
            Some(k) => {
                assert(ids[k] != g);
            },
            None => {},
        }
    }
    None
}

/// The tags whose home is `h`, in order.
fn collect_tags(tags: &Vec<Tag>, homes: &Vec<Option<usize>>, ids: Ghost<Seq<i64>>, h: Option<
    usize,
>) -> (res: Vec<Tag>)
    requires
        homes@.len() == tags@.len(),
        forall|j: int|
            0 <= j < tags@.len() ==> match #[trigger] homes@[j] {
                Some(k) => home_of(ids@, tags@[j]) == Some(k as int),
                None => home_of(ids@, tags@[j]) is None,
            },
    ensures
        res@ == tags_with_home(
            tags@,
            ids@,
            match h {
                Some(k) => Some(k as int),
                None => None,
            },
        ),
{
    let ghost hh = match h {
        Some(k) => Some(k as int),
        None => None,
    };
    let mut out: Vec<Tag> = Vec::new();
    let mut j: usize = 0;
    assert(tags@.take(0) =~= Seq::<Tag>::empty());
    while j < tags.len()
        invariant
            homes@.len() == tags@.len(),
            forall|j: int|
                0 <= j < tags@.len() ==> match #[trigger] homes@[j] {
                    Some(k) => home_of(ids@, tags@[j]) == Some(k as int),
                    None => home_of(ids@, tags@[j]) is None,
                },
            hh == match h {
                Some(k) => Some(k as int),
                None => None,
            },
            j <= tags@.len(),
            out@ == tags_with_home(tags@.take(j as int), ids@, hh),
        decreases tags@.len() - j,
    {
        assert(tags@.take(j + 1).drop_last() =~= tags@.take(j as int));
        assert(tags@.take(j + 1).last() == tags@[j as int]);
        let same = match (homes[j], h) {
            (Some(a), Some(b)) => a == b,
            (None, None) => true,
            _ => false,
        };
        assert(same == (home_of(ids@, tags@[j as int]) == hh)) by {
            let _ = homes@[j as int];
        }
        if same {
            out.push(tags[j].duplicate());
        }
        j = j + 1;
    }
    assert(tags@.take(tags@.len() as int) =~= tags@);
    out
}

/// The tag tree: each group, in the given order, with the tags whose group
/// id is that group's (the first group with that id), and, when any tag has
/// no group or names a group that does not exist, a final default group
/// (`id` 0, name `默认`, sort order 999) holding those tags. Tags keep their
/// order within each group.
pub fn build_tag_tree(groups: Vec<TagGroup>, tags: Vec<Tag>) -> (res: Vec<TagGroupWithTags>)
    ensures
        is_tag_tree(res@, groups@, tags@),
{
    let ghost ids = group_ids(groups@);
    let mut homes: Vec<Option<usize>> = Vec::new();
    let mut j: usize = 0;
    while j < tags.len()
        invariant
            ids == group_ids(groups@),
            j <= tags@.len(),
            homes@.len() == j,
            forall|k: int|
                0 <= k < j ==> match #[trigger] homes@[k] {
                    Some(x) => home_of(ids, tags@[k]) == Some(x as int),
                    None => home_of(ids, tags@[k]) is None,
                },
        decreases tags@.len() - j,
    {
        let h = match tags[j].group_id {
            Some(g) => find_group(&groups, g),
            None => None,
        };
        homes.push(h);
        j = j + 1;
    }
    let mut res: Vec<TagGroupWithTags> = Vec::new();
    let mut i: usize = 0;
    while i < groups.len()
        invariant
            ids == group_ids(groups@),
            homes@.len() == tags@.len(),
            forall|k: int|
                0 <= k < tags@.len() ==> match #[trigger] homes@[k] {
                    Some(x) => home_of(ids, tags@[k]) == Some(x as int),
                    None => home_of(ids, tags@[k]) is None,
                },
            i <= groups@.len(),
            res@.len() == i,
            forall|k: int|
                0 <= k < i ==> (#[trigger] res@[k]).id == groups@[k].id && res@[k].name
                    == groups@[k].name && res@[k].sort_order == groups@[k].sort_order
                    && res@[k].tags@ == tags_with_home(tags@, ids, Some(k)),
        decreases groups@.len() - i,
    {
        let group_tags = collect_tags(&tags, &homes, Ghost(ids), Some(i));
        res.push(
            TagGroupWithTags {
                id: groups[i].id,
                name: groups[i].name.clone(),
                sort_order: groups[i].sort_order,
                tags: group_tags,
            },
        );
        i = i + 1;
    }
    let rest = collect_tags(&tags, &homes, Ghost(ids), None);
    if rest.len() > 0 {
        res.push(
            TagGroupWithTags {
                id: 0,
                name: String::from_str("默认"),
                sort_order: 999,
                tags: rest,
            },
        );
    }
    res
}

// ---------------------------------------------------------------------------
// Creating and editing tags
// ---------------------------------------------------------------------------

/// A checked tag, ready to be stored.
#[derive(Debug, Clone, PartialEq, Eq)]
pub struct TagDraft {
    pub id: Option<i64>,
    pub group_id: Option<i64>,
    pub name: String,
    pub color: String,
}

impl TagDraft {
    /// The stored tag: the draft's own id when it updates a tag, otherwise
    /// `new_id`, the id the database gave the new row.
    pub fn into_tag(self, new_id: i64) -> (res: Tag)
        ensures
            res.id == match self.id {
                Some(id) => id,
                None => new_id,
            },
            res.group_id == self.group_id,
            res.name == self.name,
            res.color == self.color,
    {
        let id = match self.id {
            Some(id) => id,
            None => new_id,
        };
        Tag { id, group_id: self.group_id, name: self.name, color: self.color }
    }
}

/// Checks a tag to create or update: its name, trimmed, must not be empty;
/// a missing color becomes `#1890ff`.
pub fn prepare_tag(input: TagInput) -> (res: Result<TagDraft, String>)
    ensures
        trim(input.name@).len() == 0 ==> (res matches Err(m) && m@ == "标签名不能为空"@),
        trim(input.name@).len() > 0 ==> (res matches Ok(d) && d.id == input.id && d.group_id
            == input.group_id && d.name@ == trim(input.name@) && d.color@ == match input.color {
            Some(c) => c@,
            None => "#1890ff"@,
        }),
{
    let trimmed = trim_str(input.name.as_str());
    if trimmed.as_str().is_empty() {
        return Err(String::from_str("标签名不能为空"));
    }
    let name = trimmed;
    let color = match input.color {
        Some(c) => c,
        None => String::from_str("#1890ff"),
    };
    Ok(TagDraft { id: input.id, group_id: input.group_id, name, color })
}

/// A checked tag group, ready to be stored.
#[derive(Debug, Clone, PartialEq, Eq)]
pub struct TagGroupDraft {
    pub id: Option<i64>,
    pub name: String,
    pub sort_order: i64,
}

impl TagGroupDraft {
    /// The stored group: the draft's own id when it updates a group,
    /// otherwise `new_id`.
    pub fn into_group(self, new_id: i64) -> (res: TagGroup)
        ensures
            res.id == match self.id {
                Some(id) => id,
                None => new_id,
            },
            res.name == self.name,
            res.sort_order == self.sort_order,
    {
        let id = match self.id {
            Some(id) => id,
            None => new_id,
        };
        TagGroup { id, name: self.name, sort_order: self.sort_order }
    }
}

/// Checks a tag group to create or update: its name, trimmed, must not be
/// empty; a missing sort order becomes 0.
pub fn prepare_tag_group(input: TagGroupInput) -> (res: Result<TagGroupDraft, String>)
    ensures
        trim(input.name@).len() == 0 ==> (res matches Err(m) && m@ == "标签组名不能为空"@),
        trim(input.name@).len() > 0 ==> (res matches Ok(d) && d.id == input.id && d.name@ == trim(
            input.name@,
        ) && d.sort_order == match input.sort_order {
            Some(s) => s,
            None => 0,
        }),
{
    let trimmed = trim_str(input.name.as_str());
    if trimmed.as_str().is_empty() {
        return Err(String::from_str("标签组名不能为空"));
    }
    let name = trimmed;
    let sort_order = match input.sort_order {
        Some(s) => s,
        None => 0,
    };
    Ok(TagGroupDraft { id: input.id, name, sort_order })
}

// ---------------------------------------------------------------------------
// Video–tag links
// ---------------------------------------------------------------------------

/// Every (video, tag) pair, videos in the outer order and tags in the inner.
pub open spec fn cross_pairs(videos: Seq<i64>, tags: Seq<i64>) -> Seq<(i64, i64)>
    decreases videos.len(),
{
    if videos.len() == 0 {
        Seq::<(i64, i64)>::empty()
    } else {
        cross_pairs(videos.drop_last(), tags) + Seq::new(
            tags.len(),
            |j: int| (videos.last(), tags[j]),
        )
    }
}

/// The links written when the tags of one video are replaced: one per tag,
/// in order.
pub fn video_tag_links(video_id: i64, tag_ids: &Vec<i64>) -> (res: Vec<(i64, i64)>)
    ensures
        res@ == Seq::new(tag_ids@.len(), |j: int| (video_id, tag_ids@[j])),
{
    let mut out: Vec<(i64, i64)> = Vec::new();
    let mut j: usize = 0;
    while j < tag_ids.len()
        invariant
            j <= tag_ids@.len(),
            out@ == Seq::new(j as nat, |k: int| (video_id, tag_ids@[k])),
        decreases tag_ids@.len() - j,
    {
        out.push((video_id, tag_ids[j]));
        assert(out@ =~= Seq::new((j + 1) as nat, |k: int| (video_id, tag_ids@[k])));
        j = j + 1;
    }
    out
}

/// The links added (or removed) by a batch operation on many videos: every
/// (video, tag) pair; none when either list is empty.
pub fn batch_tag_links(video_ids: &Vec<i64>, tag_ids: &Vec<i64>) -> (res: Vec<(i64, i64)>)
    ensures
        res@ == cross_pairs(video_ids@, tag_ids@),
        video_ids@.len() == 0 || tag_ids@.len() == 0 ==> res@.len() == 0,
{
    let mut out: Vec<(i64, i64)> = Vec::new();
    let mut i: usize = 0;
    assert(video_ids@.take(0) =~= Seq::<i64>::empty());
    while i < video_ids.len()
        invariant
            i <= video_ids@.len(),
            out@ == cross_pairs(video_ids@.take(i as int), tag_ids@),
        decreases video_ids@.len() - i,
    {
        let links = video_tag_links(video_ids[i], tag_ids);
        let mut j: usize = 0;
        let ghost start = out@;
        while j < links.len()
            invariant
                j <= links@.len(),
                out@ == start + links@.take(j as int),
            decreases links@.len() - j,
        {
            out.push(links[j]);
            assert(links@.take(j + 1) =~= links@.take(j as int).push(links@[j as int]));
            j = j + 1;
        }
        assert(links@.take(links@.len() as int) =~= links@);
        assert(video_ids@.take(i + 1).drop_last() =~= video_ids@.take(i as int));
        i = i + 1;
    }
    assert(video_ids@.take(video_ids@.len() as int) =~= video_ids@);
    proof {
        if tag_ids@.len() == 0 {
            lemma_cross_empty_tags(video_ids@, tag_ids@);
        }
    }
    out
}

proof fn lemma_cross_empty_tags(videos: Seq<i64>, tags: Seq<i64>)
    requires
        tags.len() == 0,
    ensures
        cross_pairs(videos, tags).len() == 0,
    decreases videos.len(),
{
    if videos.len() > 0 {
        lemma_cross_empty_tags(videos.drop_last(), tags);
    }
}

} // verus!
