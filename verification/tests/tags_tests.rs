use skeleton::tags::{RequestHead, TagMap, Tags};

fn s(text: &str) -> String {
    String::from(text)
}

#[test]
fn empty_map_has_no_keys() {
    let m = TagMap::new();
    assert_eq!(m.get(&s("anything")), None);
}

#[test]
fn insert_then_get() {
    let mut m = TagMap::new();
    m.insert(s("a"), s("1"));
    assert_eq!(m.get(&s("a")), Some(&s("1")));
    assert_eq!(m.get(&s("b")), None);
}

#[test]
fn insert_overwrites() {
    let mut m = TagMap::new();
    m.insert(s("a"), s("1"));
    m.insert(s("a"), s("2"));
    assert_eq!(m.get(&s("a")), Some(&s("2")));
    assert_eq!(m.pairs().len(), 1);
}

#[test]
fn merge_is_right_biased() {
    let mut base = TagMap::new();
    base.insert(s("a"), s("1"));
    base.insert(s("b"), s("2"));
    let mut overrides = TagMap::new();
    overrides.insert(s("b"), s("9"));
    overrides.insert(s("c"), s("3"));
    let merged = base.merge(&overrides);
    assert_eq!(merged.get(&s("a")), Some(&s("1")));
    assert_eq!(merged.get(&s("b")), Some(&s("9")));
    assert_eq!(merged.get(&s("c")), Some(&s("3")));
    assert_eq!(merged.get(&s("d")), None);
}

#[test]
fn merge_with_disjoint_keys_keeps_both() {
    let mut base = TagMap::new();
    base.insert(s("a"), s("1"));
    let mut overrides = TagMap::new();
    overrides.insert(s("b"), s("2"));
    let merged = base.merge(&overrides);
    assert_eq!(merged.get(&s("a")), Some(&s("1")));
    assert_eq!(merged.get(&s("b")), Some(&s("2")));
}

#[test]
fn duplicate_preserves_contents() {
    let mut m = TagMap::new();
    m.insert(s("k"), s("v"));
    let d = m.duplicate();
    assert_eq!(d.get(&s("k")), Some(&s("v")));
}

#[test]
fn from_request_head_extracts_method_and_path() {
    let head = RequestHead {
        method: s("GET"),
        path: s("/v1/items"),
        user_agent: None,
    };
    let tags = Tags::from_request_head(&head);
    assert_eq!(tags.tags.get(&s("uri.method")), Some(&s("GET")));
    assert_eq!(tags.tags.get(&s("uri.path")), Some(&s("/v1/items")));
    assert_eq!(tags.tags.get(&s("user_agent")), None);
    assert_eq!(tags.extra.pairs().len(), 0);
}

#[test]
fn from_request_head_takes_user_agent_when_present() {
    let head = RequestHead {
        method: s("POST"),
        path: s("/v1/items"),
        user_agent: Some(s("curl/8")),
    };
    let tags = Tags::from_request_head(&head);
    assert_eq!(tags.tags.get(&s("user_agent")), Some(&s("curl/8")));
}

#[test]
fn tags_merge_overrides_both_maps() {
    let head = RequestHead {
        method: s("GET"),
        path: s("/a"),
        user_agent: None,
    };
    let base = Tags::from_request_head(&head);
    let mut over_tags = TagMap::new();
    over_tags.insert(s("uri.path"), s("/masked"));
    let mut over_extra = TagMap::new();
    over_extra.insert(s("note"), s("free-form"));
    let overrides = Tags {
        tags: over_tags,
        extra: over_extra,
    };
    let merged = base.merge(&overrides);
    assert_eq!(merged.tags.get(&s("uri.method")), Some(&s("GET")));
    assert_eq!(merged.tags.get(&s("uri.path")), Some(&s("/masked")));
    assert_eq!(merged.extra.get(&s("note")), Some(&s("free-form")));
}

#[test]
fn report_accessors_split_the_two_tiers() {
    let mut tag_map = TagMap::new();
    tag_map.insert(s("k"), s("v"));
    let mut extra_map = TagMap::new();
    extra_map.insert(s("x"), s("y"));
    let tags = Tags {
        tags: tag_map,
        extra: extra_map,
    };
    let t = tags.to_report_tags();
    let e = tags.to_report_extra();
    assert_eq!(t.get(&s("k")), Some(&s("v")));
    assert_eq!(t.get(&s("x")), None);
    assert_eq!(e.get(&s("x")), Some(&s("y")));
    assert_eq!(e.get(&s("k")), None);
}
