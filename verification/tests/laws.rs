use figurine_studio::commands::comfyui::replace_template_placeholders;
use figurine_studio::commands::generation::{copy_destination, list_images};
use figurine_studio::schema::{migrations, pending_migrations, CURRENT_VERSION};
use figurine_studio::services::comfyui_client::{after_failure, comfyui_retry_policy, urlencoding_encode, RetryStep};
use figurine_studio::services::filename_parser::FilenameParser;
use figurine_studio::services::generation_backend::{frames_to_fill, frames_to_generate, GeneratedImage};
use figurine_studio::services::path_utils::{sanitize_filename, validate_user_path};
use figurine_studio::posix_path::join;
use figurine_studio::services::cloud_api_client::{base64_decode, encode_image_bytes};
use figurine_studio::models::sprite::SpriteStatus;

#[test]
fn saving_a_saved_image_keeps_its_path() {
    let dir = "/p/hero/saved/direction";
    let once = copy_destination(dir, "/p/hero/generated/down_base.png").unwrap();
    let twice = copy_destination(dir, &once).unwrap();
    assert_eq!(once, twice);
    let trailing = copy_destination("/d/", "x/y.png").unwrap();
    assert_eq!(copy_destination("/d/", &trailing).unwrap(), trailing);
}

#[test]
fn a_written_stem_reads_back() {
    let parser = FilenameParser::new(vec!["down".into(), "up".into()], vec!["walk".into()]);
    let p = parser.parse_stem("dark_knight_up_walk_007").unwrap();
    assert_eq!(p.character, "dark_knight");
    assert_eq!(p.direction, "up");
    assert_eq!(p.animation, "walk");
    assert_eq!(p.frame_index, 7);
}

#[test]
fn waits_double() {
    let p = comfyui_retry_policy(10);
    let mut prev = match after_failure(p, 0) {
        RetryStep::Retry { delay_ms } => delay_ms,
        RetryStep::GiveUp => panic!(),
    };
    for k in 1..9 {
        match after_failure(p, k) {
            RetryStep::Retry { delay_ms } => {
                assert_eq!(delay_ms, 2 * prev);
                prev = delay_ms;
            }
            RetryStep::GiveUp => panic!(),
        }
    }
}

#[test]
fn unreserved_text_is_not_encoded() {
    assert_eq!(urlencoding_encode("Abc-123_.~z"), "Abc-123_.~z");
}

#[test]
fn text_without_placeholders_is_unchanged() {
    let t = r#"{"a": 1, "b": "{x}"}"#;
    let reps = vec![("x".to_string(), "9".to_string())];
    assert_eq!(replace_template_placeholders(t, &reps), t);
}

#[test]
fn sanitizing_twice_changes_nothing() {
    let once = sanitize_filename("Ünïcode Név!").unwrap();
    assert_eq!(sanitize_filename(&once).unwrap(), once);
}

#[test]
fn status_names_round_trip() {
    for name in ["generated", "raw", "ai_processed", "bg_removed", "finalized"] {
        assert_eq!(SpriteStatus::from_str(name).unwrap().as_str(), name);
    }
}

#[test]
fn listing_is_sorted_and_complete() {
    let listing: Vec<String> = ["/d/z.png", "/d/m.jpg", "/d/a.jpeg", "/d/m.jpg", "/d/k.txt"].iter().map(|s| s.to_string()).collect();
    let l = list_images(&listing);
    assert_eq!(l, vec!["/d/a.jpeg", "/d/m.jpg", "/d/m.jpg", "/d/z.png"]);
}

#[test]
fn every_frame_is_generated_or_filled() {
    let keys = frames_to_generate(&Some(vec![0, 3, 7]), 6);
    assert!(keys.iter().all(|&f| f < 6));
    let generated: Vec<GeneratedImage> = keys
        .iter()
        .map(|&f| GeneratedImage { path: format!("f{}", f), direction: None, animation: None, frame_index: Some(f) })
        .collect();
    let fill = frames_to_fill(6, &generated);
    for f in 0..6u32 {
        assert!(keys.contains(&f) != fill.contains(&f));
    }
}

#[test]
fn migrations_up_to_date() {
    assert_eq!(migrations().last().unwrap().version, CURRENT_VERSION);
    assert!(pending_migrations(CURRENT_VERSION).is_empty());
    let from1: Vec<i32> = pending_migrations(1).iter().map(|m| m.version).collect();
    assert_eq!(from1, vec![2, 3]);
    assert_eq!(pending_migrations(0).len(), 3);
}

#[test]
fn hyphens_read_as_underscores() {
    let parser = FilenameParser::new(vec!["down".into()], vec!["walk".into()]);
    let a = parser.parse("Warrior-Down-Walk-01.png").unwrap();
    let b = parser.parse("Warrior_Down_Walk_01.png").unwrap();
    assert_eq!(a, b);
    assert_eq!(a.character, "warrior");
    assert_eq!(a.frame_index, 1);
}

#[test]
fn accepted_paths_stay_under_their_base() {
    for input in ["characters/warrior", "a/./b", "warrior.png"] {
        assert!(validate_user_path(input).is_ok());
        for base in ["/proj", "/proj/", ""] {
            let joined = join(base, input);
            assert!(joined.starts_with(base));
            assert!(!joined.split('/').any(|c| c == ".."));
        }
    }
}

#[test]
fn status_names_are_distinct() {
    let all = [
        SpriteStatus::Generated,
        SpriteStatus::Raw,
        SpriteStatus::AiProcessed,
        SpriteStatus::BgRemoved,
        SpriteStatus::Finalized,
    ];
    for (i, a) in all.iter().enumerate() {
        for (j, b) in all.iter().enumerate() {
            assert_eq!(a.as_str() == b.as_str(), i == j);
        }
    }
}

#[test]
fn late_retries_wait_in_full() {
    let p = comfyui_retry_policy(64);
    assert_eq!(after_failure(p, 60), RetryStep::Retry { delay_ms: 1000u128 << 60 });
    assert_eq!(after_failure(p, 63), RetryStep::Retry { delay_ms: 1000u128 << 63 });
    assert_eq!(after_failure(p, 64), RetryStep::GiveUp);
}

#[test]
fn decoding_gives_back_what_was_encoded() {
    for bytes in [vec![], vec![0u8], vec![1, 2], vec![255, 0, 128, 7, 9]] {
        assert_eq!(base64_decode(&encode_image_bytes(&bytes)).unwrap(), bytes);
    }
}

#[test]
fn hyphens_read_as_underscores_beyond_ascii() {
    let parser = FilenameParser::new(vec!["down".into()], vec!["walk".into()]);
    let a = parser.parse("Élan-Σίσυφος-down-walk-03.webp").unwrap();
    let b = parser.parse("Élan_Σίσυφος_down_walk_03.webp").unwrap();
    assert_eq!(a, b);
    assert_eq!(a.character, "élan_σίσυφος");
}

#[test]
fn mixed_case_reads_as_lower_case() {
    let parser = FilenameParser::new(vec!["down".into()], vec!["walk".into()]);
    for ext in [".png", ".jpg", ".jpeg", ".webp", ".bmp", ".tiff", ".tif"] {
        let a = parser.parse(&format!("Dark_Knight_DOWN_Walk_2{}", ext));
        let b = parser.parse(&format!("dark_knight_down_walk_2{}", ext));
        assert_eq!(a, b);
        assert_eq!(a.unwrap().character, "dark_knight");
    }
}
