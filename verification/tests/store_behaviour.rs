use channel_enrichment::ChannelData;
use channel_enrichment::Database;

fn record(id: i64, username: &str, category: Option<&str>, geo: Option<&str>) -> ChannelData {
    ChannelData {
        id,
        title: None,
        username: username.to_string(),
        photo_element: None,
        category: category.map(|c| c.to_string()),
        description: None,
        subscribers: None,
        geo: geo.map(|g| g.to_string()),
    }
}

#[test]
fn default_database_is_empty() {
    let db = Database::default();
    assert!(db.channels.is_empty());
}

#[test]
fn lookup_by_username_and_id() {
    let mut db = Database::default();
    db.add_channel(record(1, "alpha", None, None));
    db.add_channel(record(2, "beta", None, None));
    assert_eq!(db.get_channel_by_username("beta").map(|c| c.id), Some(2));
    assert_eq!(db.get_channel_by_username("gamma").map(|c| c.id), None);
    assert_eq!(db.get_channel_by_id(1).map(|c| c.username), Some("alpha".to_string()));
    assert!(db.get_channel_by_id(3).is_none());
}

#[test]
fn upsert_replaces_by_id_first() {
    let mut db = Database::default();
    db.add_channel(record(1, "alpha", None, None));
    db.add_channel(record(2, "beta", None, None));
    db.add_or_update_channel(record(2, "beta_renamed", Some("news"), None));
    assert_eq!(db.channels.len(), 2);
    assert_eq!(db.channels[1].username, "beta_renamed".to_string());
    assert_eq!(db.channels[1].category, Some("news".to_string()));
}

#[test]
fn upsert_falls_back_to_username_for_zero_id() {
    let mut db = Database::default();
    db.add_channel(record(7, "gamma", None, None));
    db.add_or_update_channel(record(0, "gamma", None, Some("ru")));
    assert_eq!(db.channels.len(), 1);
    assert_eq!(db.channels[0].id, 0);
    assert_eq!(db.channels[0].geo, Some("ru".to_string()));
}

#[test]
fn upsert_appends_unknown_record() {
    let mut db = Database::default();
    db.add_channel(record(1, "alpha", None, None));
    db.add_or_update_channel(record(2, "beta", None, None));
    assert_eq!(db.channels.len(), 2);
    assert_eq!(db.channels[1].id, 2);
}

#[test]
fn filter_by_category_and_geo() {
    let mut db = Database::default();
    db.add_channel(record(1, "a", Some("news"), Some("ru")));
    db.add_channel(record(2, "b", Some("news"), Some("de")));
    db.add_channel(record(3, "c", Some("sports"), Some("ru")));
    db.add_channel(record(4, "d", None, None));

    let all = db.filter_channels(None, None);
    assert_eq!(all.len(), 4);

    let news = db.filter_channels(Some(&"news".to_string()), None);
    assert_eq!(news.iter().map(|c| c.id).collect::<Vec<_>>(), vec![1, 2]);

    let news_ru = db.filter_channels(Some(&"news".to_string()), Some(&"ru".to_string()));
    assert_eq!(news_ru.iter().map(|c| c.id).collect::<Vec<_>>(), vec![1]);

    let ru = db.filter_channels(None, Some(&"ru".to_string()));
    assert_eq!(ru.iter().map(|c| c.id).collect::<Vec<_>>(), vec![1, 3]);
}

#[test]
fn set_category_and_geo_by_id() {
    let mut db = Database::default();
    db.add_channel(record(1, "a", None, None));
    assert!(db.set_category(1, "tech".to_string()));
    assert!(db.set_geo(1, "de".to_string()));
    assert!(!db.set_category(9, "tech".to_string()));
    assert!(!db.set_geo(9, "de".to_string()));
    assert_eq!(db.channels[0].category, Some("tech".to_string()));
    assert_eq!(db.channels[0].geo, Some("de".to_string()));
    assert_eq!(db.channels.len(), 1);
}
