use figurine_studio::services::generation_backend::{
    animation_replacements, candidate_file_name, concept_art_replacements, concept_replacements,
    direction_file_name, direction_replacements, done_progress, frame_file_name, frames_to_fill,
    frames_to_generate, needs_interpolation, pixel_art_replacements, pixel_grid, resolve_seed, sort_by_frame,
    step_progress, GeneratedImage, GenerationStage,
};

fn pairs(v: &[(&str, &str)]) -> Vec<(String, String)> {
    v.iter().map(|(k, x)| (k.to_string(), x.to_string())).collect()
}

fn frame(path: &str, f: Option<u32>) -> GeneratedImage {
    GeneratedImage { path: path.into(), direction: None, animation: None, frame_index: f }
}

#[test]
fn progress_reports() {
    let p = step_progress(GenerationStage::Concept, 2, 3, "", "");
    assert_eq!(p.stage, "concept");
    assert_eq!(p.status, "processing");
    assert_eq!(p.message, "コンセプト画像 2/3 を生成中...");
    let d = step_progress(GenerationStage::Direction, 1, 4, "left", "");
    assert_eq!(d.message, "方向 left (1/4) を生成中...");
    let a = step_progress(GenerationStage::Animation, 3, 8, "up", "walk");
    assert_eq!(a.message, "up walk フレーム 3/8 を生成中...");
    let done = done_progress(GenerationStage::PixelArtConversion, 2, 3);
    assert_eq!(done.stage, "pixel_art_conversion");
    assert_eq!(done.status, "completed");
    assert_eq!(done.current, 3);
    assert_eq!(done.message, "ピクセルアート変換完了: 2/3 枚成功");
    assert_eq!(done_progress(GenerationStage::Direction, 4, 4).message, "方向展開完了: 4/4 方向成功");
}

#[test]
fn workflow_values_with_defaults() {
    let c = concept_replacements("cat", "dog", 42, None, "7", &None, &None, "1.2", "1");
    assert_eq!(
        c,
        pairs(&[
            ("positive_prompt", "cat"),
            ("negative_prompt", "dog"),
            ("seed", "42"),
            ("steps", "30"),
            ("cfg_scale", "7"),
            ("checkpoint_name", "sd_xl_base_1.0.safetensors"),
            ("lora_name", "pixel-art-xl.safetensors"),
            ("lora_strength_model", "1.2"),
            ("lora_strength_clip", "1"),
        ])
    );
    let ca = concept_art_replacements("cat", "", -3, Some(12), "5.5", &Some("m.ckpt".into()));
    assert_eq!(ca[2], ("seed".to_string(), "-3".to_string()));
    assert_eq!(ca[3], ("steps".to_string(), "12".to_string()));
    assert_eq!(ca[5], ("checkpoint_name".to_string(), "m.ckpt".to_string()));
    assert_eq!(ca.len(), 6);
    let px = pixel_art_replacements("p", "n", "in.png", "0.55", 1, None, "7", &None, &Some("l.safetensors".into()), "1.2", "1");
    assert_eq!(px[2], ("input_image".to_string(), "in.png".to_string()));
    assert_eq!(px[8], ("lora_name".to_string(), "l.safetensors".to_string()));
    let d = direction_replacements("ref.png", "left", "0.8", 9, None, "7", &None, &None, "1");
    assert_eq!(d[1], ("positive_prompt".to_string(), "left view character".to_string()));
    assert_eq!(d[2], ("negative_prompt".to_string(), "".to_string()));
    assert_eq!(d.len(), 9);
    let a = animation_replacements("ref.png", "up", "walk", 2, "0.8", 11, None, "7", &None, &Some("l".into()), "0.9");
    assert_eq!(a[1], ("positive_prompt".to_string(), "up view, walk animation, frame 2".to_string()));
    assert_eq!(a[5], ("frame_index".to_string(), "2".to_string()));
    assert_eq!(a[a.len() - 1], ("lora_weight".to_string(), "0.9".to_string()));
}

#[test]
fn output_file_names() {
    assert_eq!(candidate_file_name("concept", "20240101120000", 2), "concept_20240101120000_002.png");
    assert_eq!(candidate_file_name("concept_art", "t", 1234), "concept_art_t_1234.png");
    assert_eq!(direction_file_name("down"), "down_base.png");
    assert_eq!(frame_file_name("down", "walk", 3), "down_walk_frame_03.png");
    assert_eq!(frame_file_name("down", "walk", 12), "down_walk_frame_12.png");
}

#[test]
fn frames_and_interpolation() {
    assert_eq!(frames_to_generate(&None, 3), vec![0, 1, 2]);
    assert_eq!(frames_to_generate(&Some(vec![4, 0, 9, 2]), 5), vec![4, 0, 2]);
    assert!(needs_interpolation(true, 2, 4));
    assert!(!needs_interpolation(true, 4, 4));
    assert!(!needs_interpolation(false, 0, 4));
    let got = vec![frame("a", Some(0)), frame("b", Some(3))];
    assert_eq!(frames_to_fill(5, &got), vec![1, 2, 4]);
    assert_eq!(pixel_grid(Some(32), Some(32)), Some((32, 32)));
    assert_eq!(pixel_grid(Some(32), Some(0)), None);
    assert_eq!(pixel_grid(None, Some(8)), None);
}

#[test]
fn sorting_by_frame_is_stable() {
    let v = vec![frame("c", Some(2)), frame("a", None), frame("b", Some(0)), frame("d", Some(2)), frame("e", Some(1))];
    let sorted: Vec<String> = sort_by_frame(v).into_iter().map(|g| g.path).collect();
    assert_eq!(sorted, vec!["a", "b", "e", "c", "d"]);
}

#[test]
fn seeds() {
    assert_eq!(resolve_seed(Some(7), Some(99)), 7);
    assert_eq!(resolve_seed(None, Some(1_700_000_000_123)), 1_700_000_000_123);
    assert_eq!(resolve_seed(None, None), 42);
}
