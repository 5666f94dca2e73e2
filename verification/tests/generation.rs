use figurine_studio::commands::generation::{
    animation_sprites, character_dir, check_generated, check_saved_image_path, check_saved_stage, cloud_backend,
    comfyui_endpoint, copy_destination, direction_sprites, generated_file, is_image_file, is_removed, list_images,
    plan_clear_stage, provider_setting_name, restore_generation_state, saved_images, uses_cloud_backend,
    BackendConfig, FileSelection, RecordCleanup,
};
use figurine_studio::error::AppError;
use figurine_studio::models::sprite::Sprite;
use figurine_studio::services::cloud_api_client::CloudApiProvider;
use figurine_studio::services::generation_backend::GeneratedImage;

fn strings(v: &[&str]) -> Vec<String> {
    v.iter().map(|s| s.to_string()).collect()
}

fn img(path: &str, direction: Option<&str>, animation: Option<&str>, frame: Option<u32>) -> GeneratedImage {
    GeneratedImage {
        path: path.into(),
        direction: direction.map(String::from),
        animation: animation.map(String::from),
        frame_index: frame,
    }
}

fn sprite(id: &str, animation: &str, status: &str, raw: Option<&str>) -> Sprite {
    Sprite {
        id: id.into(),
        character_id: "c".into(),
        direction: "down".into(),
        animation: animation.into(),
        frame_index: 0,
        raw_path: raw.map(String::from),
        processed_path: None,
        final_path: None,
        status: status.into(),
        created_at: "t".into(),
    }
}

#[test]
fn backend_choice() {
    assert!(uses_cloud_backend(&Some("cloud_api".into())));
    assert!(!uses_cloud_backend(&Some("comfyui".into())));
    assert!(!uses_cloud_backend(&None));
    assert_eq!(provider_setting_name(&None), "pixellab");
    assert_eq!(comfyui_endpoint(&None), "http://127.0.0.1:8188");
    assert_eq!(comfyui_endpoint(&Some("http://gpu:8188".into())), "http://gpu:8188");
    match cloud_backend("fal.ai", &Some("k".into())).unwrap() {
        BackendConfig::CloudApi { provider, api_key } => {
            assert_eq!(provider, CloudApiProvider::FalAi);
            assert_eq!(api_key, "k");
        }
        other => panic!("{:?}", other),
    }
    match cloud_backend("replicate", &Some("".into())) {
        Err(AppError::CloudApi(m)) => assert_eq!(m, "replicate の API キーが設定されていません"),
        other => panic!("{:?}", other),
    }
    assert!(cloud_backend("pixellab", &None).is_err());
    assert_eq!(character_dir("/base", "hero", "concepts"), "/base/hero/concepts");
    assert_eq!(character_dir("/base/", "hero", "generated"), "/base/hero/generated");
}

#[test]
fn generated_images_become_sprites() {
    let gens = vec![img("/g/down_base.png", Some("down"), None, None), img("/g/x_base.png", None, None, None)];
    let s = direction_sprites("c1", &gens);
    assert_eq!(s.len(), 2);
    assert_eq!(s[0].direction, "down");
    assert_eq!(s[1].direction, "unknown");
    assert_eq!(s[1].animation, "base");
    assert_eq!(s[1].frame_index, 0);
    assert_eq!(s[0].raw_path, Some("/g/down_base.png".to_string()));
    let frames = vec![img("/g/f3.png", None, None, Some(3)), img("/g/f.png", None, None, None)];
    let a = animation_sprites("c1", "left", "walk", &frames);
    assert_eq!(a[0].frame_index, 3);
    assert_eq!(a[1].frame_index, 0);
    assert_eq!(a[0].animation, "walk");
    assert_eq!(a[0].direction, "left");
}

#[test]
fn promotion_checks() {
    assert!(check_generated("s1", "generated").is_ok());
    match check_generated("s1", "raw") {
        Err(AppError::Validation(m)) => assert_eq!(m, "スプライト s1 は 'generated' ステータスではありません (現在: raw)"),
        other => panic!("{:?}", other),
    }
    assert_eq!(generated_file("s1", &Some("/g/a.png".into())).unwrap(), "/g/a.png");
    match generated_file("s1", &None) {
        Err(AppError::Validation(m)) => assert_eq!(m, "スプライト s1 にファイルパスがありません"),
        other => panic!("{:?}", other),
    }
    assert_eq!(copy_destination("/p/c/raw", "/g/a.png").unwrap(), "/p/c/raw/a.png");
    match copy_destination("/p/c/raw", "/g/..") {
        Err(AppError::Internal(m)) => assert_eq!(m, "無効なファイルパス"),
        other => panic!("{:?}", other),
    }
}

#[test]
fn clearing_stages() {
    let p = plan_clear_stage("concept").unwrap();
    assert_eq!(p.subdir, "concepts");
    assert_eq!(p.files, FileSelection::AllFiles);
    assert_eq!(p.records, RecordCleanup::ClearConceptImage);
    let d = plan_clear_stage("direction").unwrap();
    assert_eq!(d.subdir, "generated");
    assert_eq!(d.records, RecordCleanup::DeleteBasePoseSprites);
    let a = plan_clear_stage("animation").unwrap();
    assert_eq!(a.files, FileSelection::AnimationFrames);
    assert_eq!(plan_clear_stage("concept_art").unwrap().records, RecordCleanup::Keep);
    match plan_clear_stage("everything") {
        Err(AppError::Validation(m)) => assert_eq!(m, "不正なステージ名です: everything"),
        other => panic!("{:?}", other),
    }
    assert!(is_removed(FileSelection::BasePoses, "down_base.png", true));
    assert!(!is_removed(FileSelection::BasePoses, "down_walk_frame_00.png", true));
    assert!(is_removed(FileSelection::AnimationFrames, "down_walk_frame_00.png", false));
    assert!(!is_removed(FileSelection::AllFiles, "dir", false));
    assert!(is_removed(FileSelection::AllFiles, "a.png", true));
}

#[test]
fn listing_images_filters_and_sorts() {
    assert!(is_image_file("/a/b.png"));
    assert!(is_image_file("/a/b.jpeg"));
    assert!(!is_image_file("/a/b.PNG"));
    assert!(!is_image_file("/a/.png"));
    assert!(!is_image_file("/a/readme"));
    let listing = strings(&["/d/c.png", "/d/notes.txt", "/d/a.jpg", "/d/B.png"]);
    assert_eq!(list_images(&listing), strings(&["/d/B.png", "/d/a.jpg", "/d/c.png"]));
}

#[test]
fn restoring_state() {
    let sprites = vec![
        sprite("1", "walk", "generated", Some("/g/w2.png")),
        sprite("2", "base", "raw", Some("/g/down_base.png")),
        sprite("3", "walk", "finalized", Some("/g/w9.png")),
        sprite("4", "walk", "generated", Some("/g/w1.png")),
        sprite("5", "base", "generated", None),
        sprite("6", "base", "generated", Some("/g/left_base.png")),
    ];
    let st = restore_generation_state(&strings(&["/ca/2.png", "/ca/1.png"]), &strings(&[]), &None, &sprites);
    assert_eq!(st.concept_art_images, strings(&["/ca/1.png", "/ca/2.png"]));
    assert_eq!(st.selected_concept_art_path, None);
    assert_eq!(st.direction_images, strings(&["/g/left_base.png"]));
    assert_eq!(st.animation_frames, strings(&["/g/w1.png", "/g/w2.png"]));
    assert_eq!(st.stage, "animation");

    let st2 = restore_generation_state(&strings(&["/ca/1.png"]), &strings(&["/c/x.png"]), &None, &vec![]);
    assert_eq!(st2.selected_concept_art_path, Some("/ca/1.png".to_string()));
    assert_eq!(st2.stage, "concept");
    let st3 = restore_generation_state(&strings(&["/ca/1.png"]), &strings(&[]), &None, &vec![]);
    assert_eq!(st3.stage, "concept_art");
    let st4 = restore_generation_state(&strings(&[]), &strings(&[]), &Some("/c/chosen.png".into()), &vec![]);
    assert_eq!(st4.stage, "concept");
    assert_eq!(st4.selected_concept_path, Some("/c/chosen.png".to_string()));
    let st5 = restore_generation_state(&strings(&[]), &strings(&[]), &None, &vec![]);
    assert_eq!(st5.stage, "idle");
    // An accepted (`raw`) base pose is no longer a generated image.
    let accepted = vec![sprite("2", "base", "raw", Some("/g/down_base.png"))];
    let st6 = restore_generation_state(&strings(&[]), &strings(&[]), &None, &accepted);
    assert!(st6.direction_images.is_empty());
    assert_eq!(st6.stage, "idle");
}

#[test]
fn saved_images_rules() {
    for s in ["concept_art", "pixel_art", "direction", "animation"] {
        assert!(check_saved_stage(s).is_ok());
    }
    match check_saved_stage("concept") {
        Err(AppError::Validation(m)) => assert_eq!(m, "不正なステージ名です: concept"),
        other => panic!("{:?}", other),
    }
    let s = saved_images(&strings(&["/s/b.png", "/s/a.png"]), &strings(&["/s/x.gif"]), &strings(&[]), &strings(&["/s/f.jpg"]));
    assert_eq!(s.concept_art, strings(&["/s/a.png", "/s/b.png"]));
    assert!(s.pixel_art.is_empty());
    assert_eq!(s.animation, strings(&["/s/f.jpg"]));
    assert!(check_saved_image_path("/p/hero/saved/direction/a.png").is_ok());
    assert!(matches!(check_saved_image_path("/p/hero/generated/a.png"), Err(AppError::Validation(_))));
}
