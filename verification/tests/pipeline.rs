//! End-to-end tests of the verified pipeline: preprocessing synthetic
//! images, assembling batches with isolated failures, and mapping inference
//! output rows back to ids.
use image_embedder::batch::{assemble, embedding_output_index, map_results};
use image_embedder::preprocess::{preprocess, side_within_limits};
use image_embedder::structures::{EmbeddingResult, FetchedDocument};

/// A `w` by `h` uniform image with every channel byte equal to `v`, encoded
/// as PNG (lossless, so the decoded pixels are exactly `v`).
fn uniform_png(w: u32, h: u32, v: u8) -> Vec<u8> {
    let img = image::RgbImage::from_pixel(w, h, image::Rgb([v, v, v]));
    let mut out: Vec<u8> = Vec::new();
    image::DynamicImage::ImageRgb8(img)
        .write_to(
            &mut std::io::Cursor::new(&mut out),
            image::ImageOutputFormat::Png,
        )
        .expect("png encoding of a small test image cannot fail");
    out
}

#[test]
fn preprocess_produces_channel_first_square_tensor() {
    let bytes = uniform_png(30, 20, 128);
    let tensor = preprocess(&bytes, 8).expect("a valid image must preprocess");
    assert_eq!(tensor.len(), 3 * 8 * 8);
}

#[test]
fn preprocess_uniform_gray_bytes_stay_near_input_value() {
    // The JPEG round-trip is lossy, but a uniform image stays close to
    // uniform: every tensor byte is within a small tolerance of the input.
    let v: u8 = 100;
    let bytes = uniform_png(32, 32, v);
    let tensor = preprocess(&bytes, 8).expect("a valid image must preprocess");
    assert_eq!(tensor.len(), 3 * 8 * 8);
    for b in tensor {
        assert!((b as i32 - v as i32).abs() <= 4, "byte {b} strayed from {v}");
    }
}

#[test]
fn preprocess_rejects_bytes_that_are_no_image() {
    let bytes = vec![0u8, 1, 2, 3, 4, 5, 6, 7];
    assert!(preprocess(&bytes, 8).is_err());
}

#[test]
fn preprocess_upscales_small_images() {
    // Shorter edge below the target side: the image is scaled up first.
    let bytes = uniform_png(4, 6, 200);
    let tensor = preprocess(&bytes, 16).expect("small images are upscaled");
    assert_eq!(tensor.len(), 3 * 16 * 16);
}

#[test]
fn assemble_isolates_failures_and_keeps_order() {
    let docs = vec![
        FetchedDocument { id: 10, data: Ok(uniform_png(24, 24, 50)) },
        FetchedDocument { id: 20, data: Err("transport error".to_string()) },
        FetchedDocument { id: 30, data: Ok(uniform_png(40, 24, 90)) },
        FetchedDocument { id: 40, data: Ok(vec![1u8, 2, 3]) },
    ];
    let outcome = assemble(&docs, 8);
    assert_eq!(outcome.success_ids, vec![10, 30]);
    let failure_ids: Vec<i64> = outcome.failures.iter().map(|f| f.id).collect();
    assert_eq!(failure_ids, vec![20, 40]);
    let batch = outcome.batch.expect("two items survived");
    assert_eq!(batch.count, 2);
    assert_eq!(batch.side, 8);
    assert_eq!(batch.data.len(), 2 * 3 * 8 * 8);
}

#[test]
fn assemble_all_failures_builds_no_batch() {
    let docs = vec![
        FetchedDocument { id: 1, data: Err("timeout".to_string()) },
        FetchedDocument { id: 2, data: Ok(vec![0u8; 16]) },
    ];
    let outcome = assemble(&docs, 8);
    assert!(outcome.batch.is_none());
    assert!(outcome.success_ids.is_empty());
    let failure_ids: Vec<i64> = outcome.failures.iter().map(|f| f.id).collect();
    assert_eq!(failure_ids, vec![1, 2]);
}

#[test]
fn assemble_empty_input_yields_empty_everything() {
    let docs: Vec<FetchedDocument> = Vec::new();
    let outcome = assemble(&docs, 8);
    assert!(outcome.batch.is_none());
    assert!(outcome.success_ids.is_empty());
    assert!(outcome.failures.is_empty());
}

#[test]
fn assemble_partition_covers_every_id_exactly_once() {
    let docs = vec![
        FetchedDocument { id: 7, data: Ok(uniform_png(16, 16, 10)) },
        FetchedDocument { id: 8, data: Err("no route".to_string()) },
        FetchedDocument { id: 9, data: Ok(uniform_png(16, 24, 20)) },
    ];
    let outcome = assemble(&docs, 8);
    let mut seen: Vec<i64> = outcome.success_ids.clone();
    seen.extend(outcome.failures.iter().map(|f| f.id));
    seen.sort();
    assert_eq!(seen, vec![7, 8, 9]);
    assert_eq!(
        outcome.success_ids.len() + outcome.failures.len(),
        docs.len()
    );
}

#[test]
fn assemble_outcome_is_order_independent() {
    let a = FetchedDocument { id: 1, data: Ok(uniform_png(16, 16, 30)) };
    let b = FetchedDocument { id: 2, data: Err("refused".to_string()) };
    let c = FetchedDocument { id: 3, data: Ok(uniform_png(20, 16, 60)) };
    let clone = |d: &FetchedDocument| FetchedDocument {
        id: d.id,
        data: d.data.clone(),
    };
    let forward = vec![clone(&a), clone(&b), clone(&c)];
    let backward = vec![c, b, a];
    let out_f = assemble(&forward, 8);
    let out_b = assemble(&backward, 8);
    let mut succ_f = out_f.success_ids.clone();
    let mut succ_b = out_b.success_ids.clone();
    succ_f.sort();
    succ_b.sort();
    assert_eq!(succ_f, succ_b);
    let mut fail_f: Vec<i64> = out_f.failures.iter().map(|f| f.id).collect();
    let mut fail_b: Vec<i64> = out_b.failures.iter().map(|f| f.id).collect();
    fail_f.sort();
    fail_b.sort();
    assert_eq!(fail_f, fail_b);
    // The ordered lists themselves follow the (permuted) input order.
    assert_eq!(out_f.success_ids, vec![1, 3]);
    assert_eq!(out_b.success_ids, vec![3, 1]);
}

#[test]
fn one_good_one_bad_document_splits_as_expected() {
    // One fetchable image and one unusable URL whose fetch failed: the first
    // becomes the only embedding, the second the only failure.
    let docs = vec![
        FetchedDocument { id: 1, data: Ok(uniform_png(24, 24, 77)) },
        FetchedDocument {
            id: 2,
            data: Err("builder error: relative URL without a base".to_string()),
        },
    ];
    let outcome = assemble(&docs, 8);
    assert_eq!(outcome.success_ids, vec![1]);
    assert_eq!(outcome.failures.len(), 1);
    assert_eq!(outcome.failures[0].id, 2);
    assert!(!outcome.failures[0].err.is_empty());
    let batch = outcome.batch.expect("one item survived");
    assert_eq!(batch.count, 1);
    // A fake inference output with D = 4: one row per surviving item.
    let d = 4usize;
    let output: Vec<u32> = (0..batch.count * d).map(|k| k as u32).collect();
    let results = map_results(&outcome.success_ids, &output, d);
    assert_eq!(results.len(), 1);
    assert_eq!(results[0].id, 1);
    assert_eq!(results[0].embedding, vec![0, 1, 2, 3]);
}

#[test]
fn map_results_slices_rows_in_order() {
    let ids = vec![5i64, 6, 7];
    let output: Vec<u32> = (100..112).collect();
    let results = map_results(&ids, &output, 4);
    assert_eq!(results.len(), 3);
    assert_eq!(results[0].id, 5);
    assert_eq!(results[0].embedding, vec![100, 101, 102, 103]);
    assert_eq!(results[1].id, 6);
    assert_eq!(results[1].embedding, vec![104, 105, 106, 107]);
    assert_eq!(results[2].id, 7);
    assert_eq!(results[2].embedding, vec![108, 109, 110, 111]);
}

#[test]
fn map_results_of_nothing_is_nothing() {
    let ids: Vec<i64> = Vec::new();
    let output: Vec<u32> = Vec::new();
    assert!(map_results(&ids, &output, 512).is_empty());
}

#[test]
fn side_limits_accept_usable_jpeg_dimensions() {
    assert!(!side_within_limits(0));
    assert!(side_within_limits(1));
    assert!(side_within_limits(224));
    assert!(!side_within_limits(65536));
}

#[test]
fn embedding_result_keeps_id_and_vector() {
    let r = EmbeddingResult::new(42, vec![1u32, 2, 3]);
    assert_eq!(r.id, 42);
    assert_eq!(r.embedding, vec![1, 2, 3]);
}

#[test]
fn embedding_output_is_the_last_of_the_set() {
    assert_eq!(embedding_output_index(0), None);
    assert_eq!(embedding_output_index(1), Some(0));
    assert_eq!(embedding_output_index(3), Some(2));
}
