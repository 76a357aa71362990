use media_migrate::asset::{Format, Formats, Image};
use media_migrate::scheduler::{
    partition_batches, parse_batch_size, BatchResult, BatchScheduler, UploadFailure,
};

fn sample_format(name: &str) -> Format {
    Format {
        ext: ".jpg".to_string(),
        url: format!("/uploads/small_{}.jpg", name),
        hash: format!("small_{}", name),
        mime: "image/jpeg".to_string(),
        name: name.to_string(),
        path: format!("/small_{}.jpg", name),
        size: 12,
        width: 100,
        height: 60,
    }
}

fn sample_image(n: usize) -> Image {
    let name = format!("asset{}", n);
    Image {
        id: n as i32,
        name: name.clone(),
        alternative_text: None,
        caption: None,
        width: 800,
        height: 600,
        formats: Formats { small: sample_format(&name), thumbnail: sample_format(&name) },
        hash: format!("hash_{}", name),
        ext: ".jpg".to_string(),
        mime: "image/jpeg".to_string(),
        size: 1024,
        url: format!("/uploads/{}.jpg", name),
        preview_url: None,
        provider: "local".to_string(),
        provider_metadata: None,
        created_at: "2023-01-01T00:00:00.000Z".to_string(),
        updated_at: "2023-01-01T00:00:00.000Z".to_string(),
        blurhash: "LEHV6nWB2yk8".to_string(),
        placeholder: "p".to_string(),
    }
}

fn sample_images(n: usize) -> Vec<Image> {
    (0..n).map(sample_image).collect()
}

#[test]
fn five_assets_batch_two() {
    let groups = partition_batches(sample_images(5), 2);
    let sizes: Vec<usize> = groups.iter().map(|g| g.len()).collect();
    assert_eq!(sizes, vec![2, 2, 1]);
    let names: Vec<&str> = groups.iter().flatten().map(|i| i.name.as_str()).collect();
    assert_eq!(names, vec!["asset0", "asset1", "asset2", "asset3", "asset4"]);
}

#[test]
fn empty_input_yields_no_groups() {
    let groups = partition_batches(Vec::new(), 3);
    assert_eq!(groups.len(), 0);
}

#[test]
fn batch_larger_than_input() {
    let groups = partition_batches(sample_images(2), 10);
    assert_eq!(groups.len(), 1);
    assert_eq!(groups[0].len(), 2);
}

#[test]
fn exact_multiple_batches() {
    let groups = partition_batches(sample_images(6), 3);
    let sizes: Vec<usize> = groups.iter().map(|g| g.len()).collect();
    assert_eq!(sizes, vec![3, 3]);
}

#[test]
fn group_count_is_ceiling() {
    for n in 0..12usize {
        for b in 1..5usize {
            let groups = partition_batches(sample_images(n), b);
            assert_eq!(groups.len(), (n + b - 1) / b);
            assert_eq!(groups.iter().map(|g| g.len()).sum::<usize>(), n);
        }
    }
}

#[test]
fn scheduler_reports_every_outcome_despite_failure() {
    let mut sched = BatchScheduler::new(sample_images(5), 2);
    let mut dispatched: usize = 0;
    while let Some(group) = sched.next_batch() {
        let results: Vec<BatchResult> = group
            .iter()
            .enumerate()
            .map(|(k, _)| {
                if dispatched + k == 3 {
                    BatchResult::Failure(UploadFailure::Download)
                } else {
                    BatchResult::Success
                }
            })
            .collect();
        dispatched += group.len();
        sched.record_batch(results);
    }
    assert_eq!(dispatched, 5);
    let outcomes = sched.into_outcomes();
    assert_eq!(outcomes.len(), 5);
    assert_eq!(
        outcomes,
        vec![
            BatchResult::Success,
            BatchResult::Success,
            BatchResult::Success,
            BatchResult::Failure(UploadFailure::Download),
            BatchResult::Success,
        ]
    );
}

#[test]
fn scheduler_hands_out_groups_in_order() {
    let mut sched = BatchScheduler::new(sample_images(5), 2);
    let mut seen: Vec<String> = Vec::new();
    let mut group_sizes: Vec<usize> = Vec::new();
    while let Some(group) = sched.next_batch() {
        group_sizes.push(group.len());
        for image in &group {
            seen.push(image.name.clone());
        }
        let results = vec![BatchResult::Success; group.len()];
        sched.record_batch(results);
    }
    assert_eq!(group_sizes, vec![2, 2, 1]);
    assert_eq!(seen, vec!["asset0", "asset1", "asset2", "asset3", "asset4"]);
}

#[test]
fn scheduler_empty_run_completes_immediately() {
    let mut sched = BatchScheduler::new(Vec::new(), 4);
    assert!(sched.is_done());
    assert!(sched.next_batch().is_none());
    let outcomes = sched.into_outcomes();
    assert_eq!(outcomes.len(), 0);
}

#[test]
fn all_failures_are_still_reported() {
    let mut sched = BatchScheduler::new(sample_images(3), 1);
    while let Some(group) = sched.next_batch() {
        let results = vec![BatchResult::Failure(UploadFailure::Submission); group.len()];
        sched.record_batch(results);
    }
    let outcomes = sched.into_outcomes();
    assert_eq!(outcomes.len(), 3);
    assert!(outcomes
        .iter()
        .all(|o| *o == BatchResult::Failure(UploadFailure::Submission)));
}

#[test]
fn outcome_labels() {
    assert_eq!(BatchResult::Success.describe(), "upload successful");
    assert_eq!(
        BatchResult::Failure(UploadFailure::Download).describe(),
        "download failed"
    );
    assert_eq!(
        BatchResult::Failure(UploadFailure::Submission).describe(),
        "upload submission failed"
    );
}

#[test]
fn parse_batch_size_accepts_positive_decimals() {
    assert_eq!(parse_batch_size("1"), Some(1));
    assert_eq!(parse_batch_size("10"), Some(10));
    assert_eq!(parse_batch_size("007"), Some(7));
}

#[test]
fn parse_batch_size_rejects_bad_values() {
    assert_eq!(parse_batch_size(""), None);
    assert_eq!(parse_batch_size("0"), None);
    assert_eq!(parse_batch_size("000"), None);
    assert_eq!(parse_batch_size("abc"), None);
    assert_eq!(parse_batch_size("12a"), None);
    assert_eq!(parse_batch_size("-3"), None);
    assert_eq!(parse_batch_size("2.5"), None);
    assert_eq!(parse_batch_size("99999999999999999999999999"), None);
}
