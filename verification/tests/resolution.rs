use channel_enrichment::pipeline::collect_descriptions;
use channel_enrichment::pipeline::partition_known;
use channel_enrichment::pipeline::resolve_channel_ids;
use channel_enrichment::ChannelData;
use channel_enrichment::Database;

fn record(id: i64, username: &str, description: Option<&str>) -> ChannelData {
    ChannelData {
        id,
        title: None,
        username: username.to_string(),
        photo_element: None,
        category: None,
        description: description.map(|d| d.to_string()),
        subscribers: None,
        geo: None,
    }
}

#[test]
fn partition_known_splits_by_store() {
    let mut db = Database::default();
    db.add_channel(record(1, "known_one", None));
    db.add_channel(record(2, "known_two", None));
    let names = vec!["known_two".to_string(), "missing".to_string(), "known_one".to_string()];
    let (known, to_fetch) = partition_known(&db, &names);
    assert_eq!(known.iter().map(|c| c.id).collect::<Vec<_>>(), vec![2, 1]);
    assert_eq!(to_fetch, vec!["missing".to_string()]);
}

#[test]
fn resolve_ids_for_known_names() {
    let mut db = Database::default();
    db.add_channel(record(10, "a", None));
    db.add_channel(record(20, "b", None));
    let names = vec!["b".to_string(), "a".to_string()];
    assert_eq!(resolve_channel_ids(&db, &names), Ok(vec![20, 10]));
}

#[test]
fn resolve_ids_reports_missing_name() {
    let mut db = Database::default();
    db.add_channel(record(10, "a", None));
    let names = vec!["a".to_string(), "ghost".to_string()];
    assert_eq!(resolve_channel_ids(&db, &names), Err("ghost".to_string()));
}

#[test]
fn descriptions_collected_for_trimmed_names() {
    let mut db = Database::default();
    db.add_channel(record(1, "with_desc", Some("first words")));
    db.add_channel(record(2, "no_desc", None));
    let names = vec![" with_desc ".to_string(), "no_desc".to_string(), "ghost".to_string()];
    let descriptions = collect_descriptions(&db, &names);
    assert_eq!(descriptions, vec!["first words".to_string()]);
}
