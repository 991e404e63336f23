use ore::{CodecError, PluginCategory, SortType};

fn all() -> Vec<PluginCategory> {
    vec![
    PluginCategory::AdminTools,
    PluginCategory::Chat,
    PluginCategory::DeveloperTools,
    PluginCategory::Economy,
    PluginCategory::Gameplay,
    PluginCategory::Games,
    PluginCategory::Protection,
    PluginCategory::RolePlaying,
    PluginCategory::WorldManagement,
    PluginCategory::Miscellaneous,
    ]
}

#[test]
fn category_codes_round_trip() {
    for (i, c) in all().iter().enumerate() {
        assert_eq!(c.to_int() as usize, i);
        assert_eq!(PluginCategory::from_int(c.to_int() as u32).unwrap(), *c);
    }
}

#[test]
fn category_titles_round_trip() {
    for c in all().iter() {
        assert_eq!(PluginCategory::from_str(c.title()).unwrap(), *c);
    }
    assert_eq!(PluginCategory::Chat.title(), "Chat");
    assert_eq!(PluginCategory::RolePlaying.title(), "Role Playing");
    assert_eq!(PluginCategory::from_str("World Management").unwrap(), PluginCategory::WorldManagement);
}

#[test]
fn sort_codes_round_trip() {
    let all = [
        SortType::RecentlyUpdated,
        SortType::MostStars,
        SortType::MostDownloads,
        SortType::MostViews,
        SortType::Newest,
    ];
    for s in all.iter() {
        assert_eq!(SortType::from_int(s.to_int() as u32).unwrap(), *s);
    }
    assert_eq!(SortType::RecentlyUpdated.to_int(), 4);
    assert_eq!(SortType::MostStars.to_int(), 0);
    assert_eq!(SortType::Newest.to_int(), 3);
}

#[test]
fn unknown_codes_are_errors() {
    assert!(matches!(PluginCategory::from_int(99), Err(CodecError::UnknownCategoryCode(99))));
    assert!(matches!(SortType::from_int(99), Err(CodecError::UnknownSortCode(99))));
    assert!(matches!(PluginCategory::from_int(10), Err(CodecError::UnknownCategoryCode(10))));
    assert!(matches!(SortType::from_int(5), Err(CodecError::UnknownSortCode(5))));
}

#[test]
fn unknown_title_is_error() {
    match PluginCategory::from_str("chat") {
        Err(CodecError::UnknownCategoryTitle(t)) => assert_eq!(t, "chat"),
        other => panic!("unexpected {:?}", other),
    }
    assert!(matches!(PluginCategory::from_str(""), Err(CodecError::UnknownCategoryTitle(_))));
}
