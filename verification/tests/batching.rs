use bbrew::batch::{make_batches, make_singles};
use bbrew::command::WorkItem;
use bbrew::config::{Config, BATCH_SIZE, MAX_CONCURRENT_OPERATIONS};

fn names(n: usize) -> Vec<String> {
    (0..n).map(|i| format!("pkg{}", i)).collect()
}

fn flatten(items: &[WorkItem]) -> Vec<String> {
    let mut all = Vec::new();
    for item in items {
        all.extend(item.names());
    }
    all
}

#[test]
fn three_names_in_batches_of_two() {
    let input = vec!["wget".to_string(), "curl".to_string(), "firefox".to_string()];
    let batches = make_batches(&input, 2);
    assert_eq!(
        batches,
        vec![
            WorkItem::Batch(vec!["wget".to_string(), "curl".to_string()]),
            WorkItem::Batch(vec!["firefox".to_string()]),
        ]
    );
}

#[test]
fn batches_partition_the_input() {
    for size in 1..8usize {
        for n in 0..30usize {
            let input = names(n);
            let batches = make_batches(&input, size);
            assert_eq!(flatten(&batches), input);
            assert_eq!(batches.len(), (n + size - 1) / size);
            for (k, batch) in batches.iter().enumerate() {
                assert!(matches!(batch, WorkItem::Batch(_)));
                assert!(batch.count() >= 1);
                assert!(batch.count() <= size);
                if k + 1 < batches.len() {
                    assert_eq!(batch.count(), size);
                }
            }
        }
    }
}

#[test]
fn twenty_five_names_in_default_batches() {
    let input = names(25);
    let batches = make_batches(&input, BATCH_SIZE);
    let sizes: Vec<usize> = batches.iter().map(|b| b.count()).collect();
    assert_eq!(sizes, vec![10, 10, 5]);
    assert_eq!(batches[2], WorkItem::Batch(input[20..].to_vec()));
}

#[test]
fn no_names_no_batches() {
    assert_eq!(make_batches(&Vec::new(), 10), Vec::<WorkItem>::new());
    assert_eq!(make_singles(&Vec::new()), Vec::<WorkItem>::new());
}

#[test]
fn exact_multiple_has_no_short_batch() {
    let batches = make_batches(&names(20), 10);
    let sizes: Vec<usize> = batches.iter().map(|b| b.count()).collect();
    assert_eq!(sizes, vec![10, 10]);
}

#[test]
fn bound_larger_than_the_list_gives_one_batch() {
    let input = names(3);
    assert_eq!(make_batches(&input, 10), vec![WorkItem::Batch(input.clone())]);
}

#[test]
fn singles_keep_the_order() {
    let input = vec!["wget".to_string(), "firefox".to_string()];
    assert_eq!(
        make_singles(&input),
        vec![WorkItem::Single("wget".to_string()), WorkItem::Single("firefox".to_string())]
    );
}

#[test]
fn defaults_are_four_and_ten() {
    assert_eq!(MAX_CONCURRENT_OPERATIONS, 4);
    assert_eq!(BATCH_SIZE, 10);
    let config = Config::default();
    assert_eq!(config.concurrency(), 4);
    assert_eq!(config.batch_size(), 10);
}

#[test]
fn config_rejects_zero_limits() {
    assert!(Config::new(0, 10).is_none());
    assert!(Config::new(4, 0).is_none());
    assert!(Config::new(0, 0).is_none());
    let config = Config::new(1, 2).unwrap();
    assert_eq!(config.concurrency(), 1);
    assert_eq!(config.batch_size(), 2);
}
