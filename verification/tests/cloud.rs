use figurine_studio::error::AppError;
use figurine_studio::services::cloud_api_backend::{
    cloud_direction_file_name, cloud_done_progress, cloud_frame_file_name, cloud_item_progress, cloud_start_progress,
    concept_art_negative_prompt, concept_art_prompt, direction_prompt, frame_prompt, frame_seed, indexed_file_name,
    pixel_art_prompt,
};
use figurine_studio::services::cloud_api_client::{
    base64_decode, cloud_retry_policy, decode_images, encode_image_bytes, number_results, png_data_url,
    replicate_poll_step, replicate_prediction_url, replicate_timeout_error, CloudApiProvider, ReplicatePoll,
};
use figurine_studio::services::comfyui_client::{after_failure, RetryStep};
use figurine_studio::services::generation_backend::GenerationStage;

#[test]
fn providers_from_settings() {
    assert_eq!(CloudApiProvider::from_str("fal_ai"), CloudApiProvider::FalAi);
    assert_eq!(CloudApiProvider::from_str("fal.ai"), CloudApiProvider::FalAi);
    assert_eq!(CloudApiProvider::from_str("replicate"), CloudApiProvider::Replicate);
    assert_eq!(CloudApiProvider::from_str("pixellab"), CloudApiProvider::Pixellab);
    assert_eq!(CloudApiProvider::from_str("Replicate"), CloudApiProvider::Pixellab);
    assert_eq!(CloudApiProvider::from_str(""), CloudApiProvider::Pixellab);
    assert_eq!(CloudApiProvider::FalAi.api_key_setting(), "fal_ai_api_key");
    assert_eq!(CloudApiProvider::Pixellab.api_key_setting(), "pixellab_api_key");
    assert_eq!(CloudApiProvider::Replicate.api_key_setting(), "replicate_api_key");
    assert!(CloudApiProvider::Pixellab.has_rotate_endpoint());
    assert!(!CloudApiProvider::Replicate.has_rotate_endpoint());
}

#[test]
fn requests() {
    assert_eq!(CloudApiProvider::FalAi.authorization("k1"), "Key k1");
    assert_eq!(CloudApiProvider::Replicate.authorization("k1"), "Bearer k1");
    assert_eq!(CloudApiProvider::Pixellab.connection_test_url(), "https://api.pixellab.ai/v1/models");
    assert_eq!(CloudApiProvider::FalAi.connection_test_url(), "https://fal.run/health");
    assert_eq!(replicate_prediction_url("abc"), "https://api.replicate.com/v1/predictions/abc");
    assert_eq!(png_data_url("QUJD"), "data:image/png;base64,QUJD");
}

#[test]
fn cloud_retries_wait_half_then_one_second() {
    let p = cloud_retry_policy();
    assert_eq!(after_failure(p, 0), RetryStep::Retry { delay_ms: 500 });
    assert_eq!(after_failure(p, 1), RetryStep::Retry { delay_ms: 1000 });
    assert_eq!(after_failure(p, 2), RetryStep::GiveUp);
}

#[test]
fn base64_round_and_errors() {
    assert_eq!(encode_image_bytes(&vec![]), "");
    assert_eq!(encode_image_bytes(&vec![b'M']), "TQ==");
    assert_eq!(encode_image_bytes(&vec![b'M', b'a']), "TWE=");
    assert_eq!(encode_image_bytes(&b"Man".to_vec()), "TWFu");
    assert_eq!(encode_image_bytes(&vec![0xfb, 0xff]), "+/8=");
    assert_eq!(base64_decode("TWFu").unwrap(), b"Man".to_vec());
    assert_eq!(base64_decode(&encode_image_bytes(&vec![1, 2, 3, 250])).unwrap(), vec![1, 2, 3, 250]);
    match base64_decode("T!==") {
        Err(AppError::CloudApi(m)) => assert!(m.starts_with("Base64 decode error: ")),
        other => panic!("{:?}", other),
    }
    let ok = decode_images(&vec!["TQ==".into(), "TWE=".into()]).unwrap();
    assert_eq!(ok.len(), 2);
    assert_eq!(ok[1].image_bytes, b"Ma".to_vec());
    assert_eq!(ok[1].index, 1);
    assert!(matches!(decode_images(&vec!["TQ==".into(), "%%".into()]), Err(AppError::CloudApi(_))));
    let n = number_results(vec![vec![1], vec![2, 3]]);
    assert_eq!(n[0].index, 0);
    assert_eq!(n[1].image_bytes, vec![2, 3]);
}

#[test]
fn replicate_polling() {
    match replicate_poll_step("succeeded", Some(vec!["u1".into()]), None) {
        ReplicatePoll::Succeeded(v) => assert_eq!(v, vec!["u1".to_string()]),
        other => panic!("{:?}", other),
    }
    match replicate_poll_step("succeeded", None, None) {
        ReplicatePoll::Succeeded(v) => assert!(v.is_empty()),
        other => panic!("{:?}", other),
    }
    match replicate_poll_step("canceled", None, None) {
        ReplicatePoll::Failed(AppError::CloudApi(m)) => assert_eq!(m, "Replicate prediction failed: Unknown error"),
        other => panic!("{:?}", other),
    }
    match replicate_poll_step("failed", None, Some("oom".into())) {
        ReplicatePoll::Failed(AppError::CloudApi(m)) => assert_eq!(m, "Replicate prediction failed: oom"),
        other => panic!("{:?}", other),
    }
    assert!(matches!(replicate_poll_step("processing", None, None), ReplicatePoll::Running));
    match replicate_timeout_error() {
        AppError::CloudApi(m) => assert_eq!(m, "Replicate prediction timed out"),
        other => panic!("{:?}", other),
    }
}

#[test]
fn cloud_prompts_files_and_seeds() {
    assert_eq!(concept_art_prompt("elf"), "elf, concept art, detailed illustration, high quality, character design");
    assert_eq!(concept_art_negative_prompt("blur"), "blur, pixel art, pixelated, low resolution");
    assert_eq!(pixel_art_prompt("elf"), "elf, pixel art style, game character sprite, clean pixels, retro game");
    assert_eq!(direction_prompt("left"), "pixel art character facing left, game sprite");
    assert_eq!(frame_prompt("walk", 3, "up"), "pixel art character walk animation frame 3, facing up, game sprite");
    assert_eq!(frame_seed(Some(10), 3), Some(13));
    assert_eq!(frame_seed(None, 3), None);
    assert_eq!(indexed_file_name("concept", 0), "concept_0.png");
    assert_eq!(indexed_file_name("pixel_art", 12), "pixel_art_12.png");
    assert_eq!(cloud_direction_file_name("up"), "direction_up.png");
    assert_eq!(cloud_frame_file_name("up", "walk", 4), "up_walk_f04.png");
}

#[test]
fn cloud_progress() {
    let s = cloud_start_progress(GenerationStage::Animation, 8, "up", "walk");
    assert_eq!(s.current, 0);
    assert_eq!(s.message, "up walk のフレーム生成開始");
    let i = cloud_item_progress(GenerationStage::Direction, 2, 4, "left");
    assert_eq!(i.message, "left 方向完了 (2/4)");
    let c = cloud_item_progress(GenerationStage::Concept, 1, 3, "");
    assert_eq!(c.message, "コンセプト 1/3 完了");
    let d = cloud_done_progress(GenerationStage::ConceptArt, 3, "", "");
    assert_eq!(d.status, "completed");
    assert_eq!(d.current, 3);
    assert_eq!(d.message, "コンセプトアート生成完了");
}
