use channel_enrichment::dispatch::chunk_records;
use channel_enrichment::dispatch::Dispatcher;
use channel_enrichment::ChannelData;

fn record(id: i64) -> ChannelData {
    ChannelData {
        id,
        title: None,
        username: format!("chan{id}"),
        photo_element: None,
        category: None,
        description: None,
        subscribers: None,
        geo: None,
    }
}

/// Forty-five incomplete items split into three chunks of fifteen, and a
/// pool of width three never has more than three chunks in flight.
#[test]
fn forty_five_items_three_chunks_bounded() {
    let items: Vec<ChannelData> = (0..45).map(record).collect();
    let chunks = chunk_records(&items, 15);
    assert_eq!(chunks.len(), 3);
    for chunk in &chunks {
        assert_eq!(chunk.len(), 15);
    }

    let mut dispatcher = Dispatcher::new(chunks, 3);
    let mut in_flight = 0usize;
    let mut handed_out = 0usize;
    loop {
        while let Some(chunk) = dispatcher.try_dispatch() {
            in_flight += 1;
            handed_out += chunk.len();
            assert!(in_flight <= 3, "more than three chunks in flight");
        }
        if in_flight == 0 {
            break;
        }
        dispatcher.complete_one();
        in_flight -= 1;
    }
    assert!(dispatcher.done());
    assert_eq!(handed_out, 45);
}

/// With three chunks and width three, exactly three dispatches succeed
/// before one must complete.
#[test]
fn fourth_dispatch_refused() {
    let items: Vec<ChannelData> = (0..45).map(record).collect();
    let chunks = chunk_records(&items, 15);
    let mut dispatcher = Dispatcher::new(chunks, 3);
    assert!(dispatcher.try_dispatch().is_some());
    assert!(dispatcher.try_dispatch().is_some());
    assert!(dispatcher.try_dispatch().is_some());
    assert!(dispatcher.try_dispatch().is_none());
    dispatcher.complete_one();
    assert!(dispatcher.try_dispatch().is_none());
    dispatcher.complete_one();
    dispatcher.complete_one();
    assert!(dispatcher.done());
}

/// Chunking keeps every record, in order, and sizes the tail chunk by the
/// remainder.
#[test]
fn chunking_preserves_items() {
    let items: Vec<ChannelData> = (0..7).map(record).collect();
    let chunks = chunk_records(&items, 3);
    assert_eq!(chunks.len(), 3);
    assert_eq!(chunks[0].len(), 3);
    assert_eq!(chunks[1].len(), 3);
    assert_eq!(chunks[2].len(), 1);
    let flat: Vec<i64> = chunks.iter().flatten().map(|c| c.id).collect();
    assert_eq!(flat, (0..7).collect::<Vec<i64>>());
}
