use channel_enrichment::classify::accept_label;
use channel_enrichment::enrich::apply_enrichment;
use channel_enrichment::enrich::plan_enrichment;
use channel_enrichment::enrich::EnrichOutcomes;
use channel_enrichment::pipeline::admit_channel;
use channel_enrichment::pipeline::partition_known;
use channel_enrichment::pipeline::ChatInfo;
use channel_enrichment::reconcile::reconcile_candidates;
use channel_enrichment::reconcile::ReconcileError;
use channel_enrichment::reconcile::SimilarChannelCandidate;
use channel_enrichment::ChannelData;
use channel_enrichment::Database;

fn record(id: i64, username: &str) -> ChannelData {
    ChannelData {
        id,
        title: None,
        username: username.to_string(),
        photo_element: None,
        category: None,
        description: None,
        subscribers: None,
        geo: None,
    }
}

fn complete_record(id: i64, username: &str) -> ChannelData {
    ChannelData {
        id,
        title: Some("t".to_string()),
        username: username.to_string(),
        photo_element: None,
        category: Some("news".to_string()),
        description: Some("d".to_string()),
        subscribers: Some(1),
        geo: Some("ru".to_string()),
    }
}

fn labels(names: &[&str]) -> Vec<String> {
    names.iter().map(|n| n.to_string()).collect()
}

/// Seeding an empty store with one username: one source lookup is needed,
/// the record is created with its description filled, both labels are still
/// missing (two classifier calls), the category answer is folded and kept,
/// and a geo answer outside the candidate set leaves geo absent.
#[test]
fn seed_on_empty_store() {
    let mut db = Database::default();
    let seeds = vec!["newschannel".to_string()];
    let (known, to_fetch) = partition_known(&db, &seeds);
    assert!(known.is_empty());
    assert_eq!(to_fetch, vec!["newschannel".to_string()]);

    // One source lookup per unknown name.
    assert_eq!(to_fetch.len(), 1);
    let chat = ChatInfo {
        id: -1004242,
        username: Some("newschannel".to_string()),
        title: Some("News Channel".to_string()),
        description: Some("Daily headlines".to_string()),
    };
    let mut rec = admit_channel(&mut db, chat);
    assert_eq!(rec.id, 4242);
    assert_eq!(rec.description, Some("Daily headlines".to_string()));

    // Two classifier calls: category and geo, not description.
    let plan = plan_enrichment(&rec);
    assert!(!plan.need_description);
    assert!(plan.need_category);
    assert!(plan.need_geo);

    let categories = labels(&["News", "Sports"]);
    let geos = labels(&["ru", "de"]);
    apply_enrichment(
        &mut rec,
        EnrichOutcomes {
            description: None,
            category_raw: Some("News".to_string()),
            geo_raw: Some("US".to_string()),
        },
        &categories,
        &geos,
    );
    assert_eq!(rec.category, Some("news".to_string()));
    assert_eq!(rec.geo, None);
}

/// Running the same enrichment pass twice with unchanged external answers
/// changes nothing the second time, and a complete record plans no calls.
#[test]
fn enrichment_twice_is_once() {
    let categories = labels(&["news"]);
    let geos = labels(&["ru"]);
    let outcomes = || EnrichOutcomes {
        description: Some("fresh".to_string()),
        category_raw: Some("NEWS".to_string()),
        geo_raw: Some("RU".to_string()),
    };
    let mut first = record(1, "chan");
    apply_enrichment(&mut first, outcomes(), &categories, &geos);
    let mut second = first.clone();
    apply_enrichment(&mut second, outcomes(), &categories, &geos);
    assert_eq!(first.description, second.description);
    assert_eq!(first.category, second.category);
    assert_eq!(first.geo, second.geo);

    let plan = plan_enrichment(&second);
    assert!(!plan.need_description);
    assert!(!plan.need_category);
    assert!(!plan.need_geo);
}

/// An existing category of "news" is never overwritten, even when the
/// classifier would answer a different, valid label.
#[test]
fn category_news_is_preserved() {
    let categories = labels(&["news", "sports"]);
    let geos = labels(&["ru"]);
    let mut rec = record(5, "kept");
    rec.category = Some("news".to_string());
    apply_enrichment(
        &mut rec,
        EnrichOutcomes {
            description: None,
            category_raw: Some("sports".to_string()),
            geo_raw: None,
        },
        &categories,
        &geos,
    );
    assert_eq!(rec.category, Some("news".to_string()));
}

/// The stored label is always a case-folded member of the candidate set,
/// never the classifier's arbitrary answer.
#[test]
fn stored_labels_stay_in_candidate_set() {
    let candidates = labels(&["News", "Tech"]);
    let folded: Vec<String> = candidates.iter().map(|c| c.to_lowercase()).collect();
    for raw in ["news", " NEWS\n", "Tech", "opinion", "", "new"] {
        match accept_label(raw, &candidates) {
            Some(stored) => assert!(folded.contains(&stored), "{stored} not a candidate"),
            None => {}
        }
    }
    assert_eq!(accept_label("opinion", &candidates), None);
    assert_eq!(accept_label(" NEWS\n", &candidates), Some("news".to_string()));
}

/// Classifier failure for geo with success for category leaves category set
/// and geo absent, and the item is still returned.
#[test]
fn partial_classifier_failure() {
    let categories = labels(&["news"]);
    let geos = labels(&["ru"]);
    let mut rec = record(9, "partial");
    apply_enrichment(
        &mut rec,
        EnrichOutcomes {
            description: Some("text".to_string()),
            category_raw: Some("news".to_string()),
            geo_raw: None,
        },
        &categories,
        &geos,
    );
    assert_eq!(rec.category, Some("news".to_string()));
    assert_eq!(rec.geo, None);
    assert_eq!(rec.description, Some("text".to_string()));
}

/// Reconciliation loses no candidate: a known complete record is done, an
/// unknown candidate with a username is queued, and only the keyless
/// candidate is rejected — the batch goes on.
#[test]
fn reconcile_splits_batch() {
    let mut db = Database::default();
    db.add_channel(complete_record(1, "done_chan"));
    let candidates = vec![
        SimilarChannelCandidate {
            id: 1,
            title: Some("fresh title".to_string()),
            photo: Some("img".to_string()),
            username: Some("done_chan".to_string()),
            html_snippet: None,
        },
        SimilarChannelCandidate {
            id: 2,
            title: Some("new".to_string()),
            photo: None,
            username: Some("new_chan".to_string()),
            html_snippet: None,
        },
        SimilarChannelCandidate {
            id: 3,
            title: None,
            photo: None,
            username: None,
            html_snippet: None,
        },
    ];
    let outcome = reconcile_candidates(&mut db, &candidates);
    assert_eq!(outcome.done.len(), 1);
    assert_eq!(outcome.pending.len(), 1);
    assert_eq!(outcome.rejected, vec![ReconcileError::MissingUsername(3)]);

    // The done record had its volatile fields refreshed and was written back;
    // its classified fields are untouched.
    let done = &outcome.done[0];
    assert_eq!(done.title, Some("fresh title".to_string()));
    assert_eq!(done.photo_element, Some("img".to_string()));
    assert_eq!(done.category, Some("news".to_string()));
    assert_eq!(done.geo, Some("ru".to_string()));
    assert_eq!(db.channels[0].title, Some("fresh title".to_string()));

    // The pending record carries everything known so far, nothing classified.
    let pending = &outcome.pending[0];
    assert_eq!(pending.id, 2);
    assert_eq!(pending.username, "new_chan".to_string());
    assert_eq!(pending.category, None);
}

/// Reconciling the same candidates again, once the store is complete for
/// all of them, queues no further work: the second pass is free.
#[test]
fn second_reconcile_queues_nothing() {
    let mut db = Database::default();
    db.add_channel(complete_record(1, "one"));
    db.add_channel(complete_record(2, "two"));
    let candidates = vec![
        SimilarChannelCandidate {
            id: 1,
            title: Some("a".to_string()),
            photo: None,
            username: Some("one".to_string()),
            html_snippet: None,
        },
        SimilarChannelCandidate {
            id: 2,
            title: Some("b".to_string()),
            photo: None,
            username: Some("two".to_string()),
            html_snippet: None,
        },
    ];
    let first = reconcile_candidates(&mut db, &candidates);
    assert_eq!(first.done.len(), 2);
    assert_eq!(first.pending.len(), 0);
    let second = reconcile_candidates(&mut db, &candidates);
    assert_eq!(second.done.len(), 2);
    assert_eq!(second.pending.len(), 0);
    assert_eq!(second.rejected.len(), 0);
    for (a, b) in first.done.iter().zip(second.done.iter()) {
        assert_eq!(a.category, b.category);
        assert_eq!(a.description, b.description);
        assert_eq!(a.geo, b.geo);
    }
}
