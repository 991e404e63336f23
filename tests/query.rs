use ore::{search, PluginCategory, QueryBuildError, SortType};

fn pairs(ps: &[(&str, &str)]) -> Vec<(String, String)> {
    ps.iter().map(|(a, b)| (a.to_string(), b.to_string())).collect()
}

#[test]
fn full_query_renders_canonically() {
    let mut q = search("foo");
    q.set_categories(&vec![PluginCategory::Chat, PluginCategory::Economy]);
    q.set_sort_type(SortType::Newest);
    q.set_limit(10).unwrap();
    q.set_offset(5).unwrap();
    assert_eq!(
        q.build(),
        pairs(&[("categories", "1,3"), ("sort", "3"), ("limit", "10"), ("offset", "5"), ("q", "foo")])
    );
}

#[test]
fn categories_keep_insertion_order() {
    let mut q = search("x");
    q.set_categories(&vec![PluginCategory::Miscellaneous, PluginCategory::AdminTools, PluginCategory::Games]);
    assert_eq!(q.build()[0], ("categories".to_string(), "9,0,5".to_string()));
}

#[test]
fn defaults_omit_categories_and_sort() {
    let q = search("bar");
    assert_eq!(q.build(), pairs(&[("limit", "25"), ("offset", "0"), ("q", "bar")]));
}

#[test]
fn empty_category_set_is_omitted() {
    let mut q = search("bar");
    q.set_categories(&vec![PluginCategory::Chat]);
    q.set_categories(&vec![]);
    q.set_sort_type(SortType::MostStars);
    assert_eq!(q.build(), pairs(&[("sort", "0"), ("limit", "25"), ("offset", "0"), ("q", "bar")]));
}

#[test]
fn invalid_limit_and_offset_are_refused() {
    let mut q = search("z");
    assert_eq!(q.set_limit(0), Err(QueryBuildError::InvalidLimit(0)));
    assert_eq!(q.set_limit(-3), Err(QueryBuildError::InvalidLimit(-3)));
    assert_eq!(q.set_offset(-1), Err(QueryBuildError::InvalidOffset(-1)));
    assert_eq!(q.build(), pairs(&[("limit", "25"), ("offset", "0"), ("q", "z")]));
    assert_eq!(q.set_limit(1), Ok(()));
    assert_eq!(q.set_offset(0), Ok(()));
    assert_eq!(q.set_offset(1234567), Ok(()));
    assert_eq!(q.build(), pairs(&[("limit", "1"), ("offset", "1234567"), ("q", "z")]));
}

#[test]
fn free_text_is_passed_raw() {
    let q = search("a b&c=d");
    assert_eq!(q.build().last().unwrap().1, "a b&c=d");
}
