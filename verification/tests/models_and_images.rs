use figurine_studio::commands::character_commands::{import_sprite_input, parse_import_name};
use figurine_studio::commands::comfyui_model::{model_status, string_entries};
use figurine_studio::commands::image_processing::{
    find_alpha_bounding_box, normalize_input, normalize_targets, output_in_dir, palette_input, palette_keeps_image,
    palette_samples, palette_size, palette_targets, tile_offset, BoundingBox,
};
use figurine_studio::commands::model_download::{model_already_present, onnx_model_status};
use figurine_studio::error::AppError;
use figurine_studio::models::character::{
    character_directories, check_character_status, check_required, merge_character_update, new_character_category,
    Character, CreateCharacter, RequiredField, UpdateCharacter,
};
use figurine_studio::models::lora::{missing_lora_file_error, CreateLoraModel};
use figurine_studio::models::sprite::{plan_sprite_batch, sprite_paths_update, Sprite, SpriteStatus, UpdateSpritePaths};
use figurine_studio::ordering::{sort_strings, str_le};
use figurine_studio::services::frame_interpolation::{plan_interpolation, FrameSource, InterpolationMethod};

fn sprite(id: &str, raw: Option<&str>, processed: Option<&str>, fin: Option<&str>) -> Sprite {
    Sprite {
        id: id.into(),
        character_id: "c".into(),
        direction: "down".into(),
        animation: "idle".into(),
        frame_index: 0,
        raw_path: raw.map(String::from),
        processed_path: processed.map(String::from),
        final_path: fin.map(String::from),
        status: "raw".into(),
        created_at: "t".into(),
    }
}

fn rgba(w: usize, h: usize, opaque: &[(usize, usize)]) -> Vec<u8> {
    let mut v = vec![0u8; 4 * w * h];
    for &(x, y) in opaque {
        v[4 * (y * w + x) + 3] = 255;
    }
    v
}

#[test]
fn bounding_boxes() {
    assert_eq!(find_alpha_bounding_box(4, 3, &rgba(4, 3, &[])), None);
    assert_eq!(
        find_alpha_bounding_box(4, 3, &rgba(4, 3, &[(1, 0), (3, 2)])),
        Some(BoundingBox { x: 1, y: 0, width: 3, height: 3 })
    );
    assert_eq!(
        find_alpha_bounding_box(5, 5, &rgba(5, 5, &[(2, 2)])),
        Some(BoundingBox { x: 2, y: 2, width: 1, height: 1 })
    );
    assert_eq!(find_alpha_bounding_box(0, 0, &vec![]), None);
}

#[test]
fn tile_placement() {
    assert_eq!(tile_offset(64, 64, 30, 50), (17, 14));
    assert_eq!(tile_offset(64, 64, 64, 64), (0, 0));
    assert_eq!(tile_offset(0, 0, 1, 1), (0, -1));
    assert_eq!(tile_offset(0, 10, 3, 1), (-1, 9));
}

#[test]
fn normalize_inputs_and_outputs() {
    assert_eq!(normalize_input(&sprite("a", Some("/r.png"), Some("/p.png"), None)).unwrap(), "/p.png");
    assert_eq!(normalize_input(&sprite("a", Some("/r.png"), None, Some("/f.png"))).unwrap(), "/r.png");
    match normalize_input(&sprite("a", None, None, Some("/f.png"))) {
        Err(AppError::Validation(m)) => assert_eq!(m, "Sprite has no image path"),
        other => panic!("{:?}", other),
    }
    assert_eq!(palette_input(&sprite("a", Some("/r.png"), Some("/p.png"), Some("/f.png"))).unwrap(), "/f.png");
    match palette_input(&sprite("a", None, None, None)) {
        Err(AppError::Validation(m)) => assert_eq!(m, "画像パスがありません"),
        other => panic!("{:?}", other),
    }
    assert_eq!(output_in_dir("/p/c/normalized", "/x/y.png", "Invalid input path").unwrap(), "/p/c/normalized/y.png");
    match output_in_dir("/p", "/", "Invalid input path") {
        Err(AppError::Internal(m)) => assert_eq!(m, "Invalid input path"),
        other => panic!("{:?}", other),
    }
    let sprites = vec![
        sprite("a", None, None, Some("/f.png")),
        sprite("b", Some("/r.png"), None, None),
        sprite("c", None, None, None),
        sprite("d", None, Some("/p.png"), None),
    ];
    assert_eq!(normalize_targets(&sprites), vec![1, 3]);
    assert_eq!(palette_targets(&sprites), vec![0, 1, 3]);
    let plan = plan_sprite_batch(&sprites, "/out");
    assert_eq!(plan.len(), 2);
    assert_eq!(plan[0].sprite_id, "b");
    assert_eq!(plan[1].input_path, "/p.png");
    assert_eq!(plan[1].output_path, Some("/out/p.png".to_string()));
}

#[test]
fn palette_sampling() {
    let px = vec![1, 2, 3, 0, 4, 5, 6, 255];
    assert_eq!(palette_samples(&px, true), vec![4, 5, 6]);
    assert_eq!(palette_samples(&px, false), vec![1, 2, 3, 4, 5, 6]);
    assert!(palette_keeps_image(&vec![], 16));
    assert!(palette_keeps_image(&vec![1, 2, 3], 0));
    assert!(!palette_keeps_image(&vec![1, 2, 3], 16));
    assert_eq!(palette_size(16), 16);
    assert_eq!(palette_size(1000), 256);
}

#[test]
fn characters() {
    for s in ["draft", "importing", "processing", "complete"] {
        assert!(check_character_status(s).is_ok());
    }
    match check_character_status("invalid_status") {
        Err(AppError::Internal(m)) => assert_eq!(m, "Invalid character status: invalid_status"),
        other => panic!("{:?}", other),
    }
    let input = CreateCharacter { project_id: "p".into(), name: "x".into(), category: None, custom_prompt: None };
    assert_eq!(new_character_category(&input), "enemy");
    let existing = Character {
        id: "1".into(),
        project_id: "p".into(),
        name: "old".into(),
        category: "enemy".into(),
        custom_prompt: Some("keep".into()),
        status: "draft".into(),
        spritesheet_path: None,
        created_at: "t".into(),
        updated_at: "t".into(),
    };
    let f = merge_character_update(&existing, &UpdateCharacter { name: Some("new".into()), category: None, custom_prompt: None });
    assert_eq!(f.name, "new");
    assert_eq!(f.category, "enemy");
    assert_eq!(f.custom_prompt, Some("keep".to_string()));
    assert_eq!(character_directories(), vec!["raw", "processed", "bg_removed", "normalized", "spritesheet"]);
    match check_required(" ", RequiredField::CharacterName) {
        Err(AppError::Validation(m)) => assert_eq!(m, "Character name is required"),
        other => panic!("{:?}", other),
    }
    match check_required("", RequiredField::ProjectName) {
        Err(AppError::Validation(m)) => assert_eq!(m, "Project name is required"),
        other => panic!("{:?}", other),
    }
    assert!(check_required("k", RequiredField::SettingKey).is_ok());
    let lora = CreateLoraModel { name: "l".into(), file_path: "/l".into(), description: None };
    assert_eq!(lora.stored_description(), "");
    match missing_lora_file_error("/x.safetensors") {
        AppError::Io(m) => assert_eq!(m, "LoRA ファイルが見つかりません: /x.safetensors"),
        other => panic!("{:?}", other),
    }
}

#[test]
fn importing_sprite_files() {
    let n = parse_import_name("/in/warrior_down_idle_03.png").unwrap();
    assert_eq!((n.direction.as_str(), n.animation.as_str(), n.frame_index), ("down", "idle", 3));
    let neg = parse_import_name("a_b_c_-7.png").unwrap();
    assert_eq!(neg.frame_index, -7);
    let c = import_sprite_input("c1", "/p/c/raw", "/in/warrior_down_idle_03.png", n);
    assert_eq!(c.raw_path, Some("/p/c/raw/warrior_down_idle_03.png".to_string()));
    assert_eq!(c.character_id, "c1");
    match parse_import_name("/in/warrior_down.png") {
        Err(AppError::Validation(m)) => assert_eq!(
            m,
            "Invalid filename format: warrior_down. Expected: {character}_{direction}_{animation}_{frame}.png"
        ),
        other => panic!("{:?}", other),
    }
    match parse_import_name("/in/dark_knight_down_idle_00.png") {
        Err(AppError::Validation(m)) => assert_eq!(m, "Invalid frame index: idle_00"),
        other => panic!("{:?}", other),
    }
    match parse_import_name("/in/a_b_c_99999999999.png") {
        Err(AppError::Validation(m)) => assert_eq!(m, "Invalid frame index: 99999999999"),
        other => panic!("{:?}", other),
    }
    match parse_import_name("/") {
        Err(AppError::Validation(m)) => assert_eq!(m, "Invalid filename"),
        other => panic!("{:?}", other),
    }
}

#[test]
fn statuses_and_sql() {
    for s in [SpriteStatus::Generated, SpriteStatus::Raw, SpriteStatus::AiProcessed, SpriteStatus::BgRemoved, SpriteStatus::Finalized] {
        assert_eq!(SpriteStatus::from_str(s.as_str()).unwrap(), s);
    }
    assert_eq!(SpriteStatus::AiProcessed.as_str(), "ai_processed");
    match SpriteStatus::from_str("done") {
        Err(e) => {
            assert_eq!(e.error_code(), "INTERNAL");
            assert_eq!(e.message(), "Invalid sprite status: done");
        }
        Ok(s) => panic!("{:?}", s),
    }
    let none = UpdateSpritePaths { raw_path: None, processed_path: None, final_path: None };
    assert!(sprite_paths_update("s", &none).is_none());
    let two = UpdateSpritePaths { raw_path: Some("/r".into()), processed_path: None, final_path: Some("/f".into()) };
    let st = sprite_paths_update("s", &two).unwrap();
    assert_eq!(st.sql, "UPDATE sprites SET raw_path = ?, final_path = ? WHERE id = ?");
    assert_eq!(st.params, vec!["/r".to_string(), "/f".to_string(), "s".to_string()]);
}

#[test]
fn error_codes_and_text() {
    let all = vec![
        (AppError::NotFound("m".into()), "NOT_FOUND"),
        (AppError::Validation("m".into()), "VALIDATION"),
        (AppError::Database("m".into()), "DATABASE"),
        (AppError::Io("m".into()), "IO"),
        (AppError::Onnx("m".into()), "ONNX"),
        (AppError::ComfyUI("m".into()), "COMFYUI"),
        (AppError::ImageProcessing("m".into()), "IMAGE_PROCESSING"),
        (AppError::Export("m".into()), "EXPORT"),
        (AppError::Internal("m".into()), "INTERNAL"),
        (AppError::CloudApi("m".into()), "CLOUD_API"),
    ];
    for (e, code) in all {
        assert_eq!(e.error_code(), code);
        assert_eq!(e.message(), "m");
    }
    assert_eq!(AppError::NotFound("x".into()).display_text(), "見つかりません: x");
    assert_eq!(AppError::Validation("x".into()).display_text(), "入力エラー: x");
}

#[test]
fn string_order() {
    assert!(str_le("a", "b"));
    assert!(str_le("ab", "ab"));
    assert!(str_le("", "a"));
    assert!(!str_le("b", "ab"));
    assert!(str_le("Z", "a"));
    let sorted = sort_strings(vec!["pear".into(), "apple".into(), "Pear".into(), "app".into(), "apple".into()]);
    let mut expected = vec!["pear", "apple", "Pear", "app", "apple"];
    expected.sort();
    assert_eq!(sorted, expected);
}

#[test]
fn interpolation_plans() {
    assert!(plan_interpolation(&[], 3, InterpolationMethod::Crossfade).is_err());
    let p = plan_interpolation(&[0, 2], 3, InterpolationMethod::Crossfade).unwrap();
    assert_eq!(p, vec![FrameSource::Keyframe(0), FrameSource::Blend { prev: 0, next: 1 }, FrameSource::Keyframe(1)]);
    let n = plan_interpolation(&[0, 4], 5, InterpolationMethod::Nearest).unwrap();
    assert_eq!(n[1], FrameSource::Keyframe(0));
    assert_eq!(n[3], FrameSource::Keyframe(1));
    assert_eq!(plan_interpolation(&[1], 0, InterpolationMethod::Nearest).unwrap(), vec![]);
    assert_eq!(
        plan_interpolation(&[0, 1, 2], 3, InterpolationMethod::Crossfade).unwrap(),
        vec![FrameSource::Keyframe(0), FrameSource::Keyframe(1), FrameSource::Keyframe(2)]
    );
    assert_eq!(InterpolationMethod::from_str("nearest"), InterpolationMethod::Nearest);
    assert_eq!(InterpolationMethod::from_str("other"), InterpolationMethod::Crossfade);
}

#[test]
fn model_listings() {
    let st = model_status("b.safetensors", vec!["a.safetensors".into(), "b.safetensors".into()]);
    assert!(st.available);
    assert_eq!(st.available_models.len(), 2);
    assert!(!model_status("B.safetensors", vec!["b.safetensors".into()]).available);
    assert_eq!(string_entries(vec![Some("x".into()), None, Some("y".into())]), vec!["x".to_string(), "y".to_string()]);
    let on = onnx_model_status("/m/u2net.onnx".into(), true, Some(10));
    assert!(on.downloaded);
    assert_eq!(on.file_size, Some(10));
    let off = onnx_model_status("/m/u2net.onnx".into(), false, Some(10));
    assert_eq!(off.file_size, None);
    assert!(model_already_present(true, 1));
    assert!(!model_already_present(true, 0));
}
