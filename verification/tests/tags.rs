use video_manager::models::{Tag, TagGroup, TagGroupInput, TagInput};
use video_manager::tags::{
    batch_tag_links, build_tag_tree, prepare_tag, prepare_tag_group, video_tag_links,
};

fn tag(id: i64, group_id: Option<i64>, name: &str) -> Tag {
    Tag { id, group_id, name: name.to_string(), color: "#1890ff".to_string() }
}

fn group(id: i64, name: &str, sort_order: i64) -> TagGroup {
    TagGroup { id, name: name.to_string(), sort_order }
}

#[test]
fn tag_tree_groups_tags() {
    let groups = vec![group(1, "类型", 0), group(2, "地区", 1)];
    let tags = vec![
        tag(10, Some(2), "欧美"),
        tag(11, Some(1), "电影"),
        tag(12, None, "收藏"),
        tag(13, Some(9), "孤儿"),
        tag(14, Some(1), "纪录片"),
    ];
    let tree = build_tag_tree(groups, tags);
    assert_eq!(tree.len(), 3);
    assert_eq!(tree[0].id, 1);
    assert_eq!(tree[0].tags.iter().map(|t| t.id).collect::<Vec<_>>(), vec![11, 14]);
    assert_eq!(tree[1].tags.iter().map(|t| t.id).collect::<Vec<_>>(), vec![10]);
    assert_eq!(tree[2].id, 0);
    assert_eq!(tree[2].name, "默认");
    assert_eq!(tree[2].sort_order, 999);
    assert_eq!(tree[2].tags.iter().map(|t| t.id).collect::<Vec<_>>(), vec![12, 13]);
    let total: usize = tree.iter().map(|g| g.tags.len()).sum();
    assert_eq!(total, 5);
}

#[test]
fn tag_tree_without_ungrouped_tags_has_no_default_group() {
    let tree = build_tag_tree(vec![group(1, "a", 0), group(3, "b", 2)], vec![tag(5, Some(3), "x")]);
    assert_eq!(tree.len(), 2);
    assert!(tree[0].tags.is_empty());
    assert_eq!(tree[1].tags[0].id, 5);
}

#[test]
fn tag_tree_duplicate_group_ids_use_first() {
    let tree = build_tag_tree(vec![group(4, "a", 0), group(4, "b", 1)], vec![tag(1, Some(4), "t")]);
    assert_eq!(tree[0].tags.len(), 1);
    assert!(tree[1].tags.is_empty());
}

#[test]
fn empty_tag_tree() {
    assert!(build_tag_tree(vec![], vec![]).is_empty());
}

#[test]
fn tag_input_checks() {
    let err = prepare_tag(TagInput { id: None, group_id: None, name: "   ".to_string(), color: None });
    assert_eq!(err, Err("标签名不能为空".to_string()));
    let d = prepare_tag(TagInput { id: None, group_id: Some(2), name: " 电影 ".to_string(), color: None })
        .unwrap();
    assert_eq!(d.name, "电影");
    assert_eq!(d.color, "#1890ff");
    let t = d.into_tag(42);
    assert_eq!(t, Tag { id: 42, group_id: Some(2), name: "电影".to_string(), color: "#1890ff".to_string() });
    let d = prepare_tag(TagInput {
        id: Some(7),
        group_id: None,
        name: "x".to_string(),
        color: Some("#ff0000".to_string()),
    })
    .unwrap();
    assert_eq!(d.into_tag(42), Tag { id: 7, group_id: None, name: "x".to_string(), color: "#ff0000".to_string() });
}

#[test]
fn tag_group_input_checks() {
    assert_eq!(
        prepare_tag_group(TagGroupInput { id: None, name: "".to_string(), sort_order: None }),
        Err("标签组名不能为空".to_string())
    );
    let g = prepare_tag_group(TagGroupInput { id: None, name: " 类型".to_string(), sort_order: None })
        .unwrap()
        .into_group(3);
    assert_eq!(g, TagGroup { id: 3, name: "类型".to_string(), sort_order: 0 });
    let g = prepare_tag_group(TagGroupInput { id: Some(9), name: "b".to_string(), sort_order: Some(5) })
        .unwrap()
        .into_group(3);
    assert_eq!(g, TagGroup { id: 9, name: "b".to_string(), sort_order: 5 });
}

#[test]
fn tag_links() {
    assert_eq!(video_tag_links(5, &vec![1, 2, 2]), vec![(5, 1), (5, 2), (5, 2)]);
    assert_eq!(
        batch_tag_links(&vec![1, 2], &vec![7, 8]),
        vec![(1, 7), (1, 8), (2, 7), (2, 8)]
    );
    assert!(batch_tag_links(&vec![], &vec![7]).is_empty());
    assert!(batch_tag_links(&vec![1], &vec![]).is_empty());
}

#[test]
fn group_tags_keep_id_order() {
    // Read ordered by group and id, as the tag tree reads them.
    let tags = vec![tag(7, None, "x"), tag(2, Some(1), "a"), tag(5, Some(1), "b"), tag(3, Some(2), "c"), tag(9, Some(2), "d")];
    let tree = build_tag_tree(vec![group(2, "g2", 0), group(1, "g1", 1)], tags);
    let ids: Vec<Vec<i64>> = tree.iter().map(|g| g.tags.iter().map(|t| t.id).collect()).collect();
    assert_eq!(ids, vec![vec![3, 9], vec![2, 5], vec![7]]);
}
