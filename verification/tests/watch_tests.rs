use contract_registry::VerificationRequest;
use contract_registry::VerificationStatus;
use contract_registry::watch::filter_parsed;
use contract_registry::watch::poll_round;

fn request(id: u64) -> VerificationRequest {
    VerificationRequest {
        id,
        repository: format!("https://github.com/example/repo-{}.git", id),
        fee: 1,
        status: VerificationStatus::PENDING,
        code_hash: None,
        created_at: id,
        updated_at: id,
    }
}

fn ids(items: &[VerificationRequest]) -> Vec<u64> {
    items.iter().map(|r| r.id).collect()
}

#[test]
fn watermark_deduplicates_across_rounds() {
    // Rounds returning ids {1,2,3}, {2,3}, {4}: the emitted sequence is
    // [1,2,3,4], with no duplicates and no gaps skipped.
    let mut watermark: Option<u64> = None;
    let mut emitted_ids: Vec<u64> = Vec::new();

    let rounds: Vec<Vec<u64>> = vec![vec![1, 2, 3], vec![2, 3], vec![4]];
    for round in rounds {
        let items = round.into_iter().map(request).collect();
        let (emitted, next) = poll_round(watermark, items);
        emitted_ids.extend(ids(&emitted));
        watermark = next;
    }

    assert_eq!(emitted_ids, vec![1, 2, 3, 4]);
    assert_eq!(watermark, Some(4));
}

#[test]
fn equal_id_is_a_duplicate() {
    // Poll returns [{id: 5}] at watermark 5: nothing is emitted and the
    // watermark stays 5 — the threshold is strict.
    let (emitted, watermark) = poll_round(Some(5), vec![request(5)]);
    assert!(emitted.is_empty());
    assert_eq!(watermark, Some(5));
}

#[test]
fn empty_round_keeps_watermark() {
    let (emitted, watermark) = poll_round(Some(3), Vec::new());
    assert!(emitted.is_empty());
    assert_eq!(watermark, Some(3));
}

#[test]
fn unknown_watermark_accepts_everything() {
    let (emitted, watermark) = poll_round(None, vec![request(0), request(1)]);
    assert_eq!(ids(&emitted), vec![0, 1]);
    assert_eq!(watermark, Some(1));
}

#[test]
fn emission_keeps_the_returned_order() {
    let (emitted, watermark) = poll_round(Some(1), vec![request(4), request(2), request(3)]);
    assert_eq!(ids(&emitted), vec![4, 2, 3]);
    assert_eq!(watermark, Some(4));
}

#[test]
fn unparsed_items_are_skipped() {
    // Items that fail to parse neither block the round nor advance the
    // watermark.
    let items = vec![Some(request(1)), None, Some(request(2)), None];
    let parsed = filter_parsed(items);
    assert_eq!(ids(&parsed), vec![1, 2]);

    let (emitted, watermark) = poll_round(None, parsed);
    assert_eq!(ids(&emitted), vec![1, 2]);
    assert_eq!(watermark, Some(2));
}
