use figurine_studio::commands::bevy_export::{plan_bevy_export, SpritesheetMeta};
use figurine_studio::commands::spritesheet::plan_spritesheet;
use figurine_studio::error::AppError;
use figurine_studio::models::project::{default_animations, default_directions, AnimationDef};
use figurine_studio::models::sprite::Sprite;

fn anim(name: &str, frame_count: u32, frame_duration_ms: u32) -> AnimationDef {
    AnimationDef { name: name.into(), frame_count, frame_duration_ms }
}

#[test]
fn test_spritesheet_meta_default_structure() {
    let directions = vec!["down".to_string(), "left".to_string(), "right".to_string(), "up".to_string()];
    let animations = vec![anim("idle", 2, 300), anim("walk", 4, 150), anim("attack", 4, 100), anim("hit", 2, 200)];
    let meta = SpritesheetMeta::new("warrior", 64, 64, &directions, &animations);
    assert_eq!(meta.version, "1.0");
    assert_eq!(meta.character, "warrior");
    assert_eq!(meta.spritesheet.columns, 12);
    assert_eq!(meta.spritesheet.rows, 4);
    assert_eq!(meta.spritesheet.tile_width, 64);
    assert_eq!(meta.spritesheet.tile_height, 64);
    assert_eq!(meta.directions.len(), 4);
    assert_eq!(meta.directions[0].name, "down");
    assert_eq!(meta.directions[0].row, 0);
    assert_eq!(meta.directions[3].name, "up");
    assert_eq!(meta.directions[3].row, 3);
    assert_eq!(meta.animations.len(), 4);
    assert_eq!(meta.animations[0].name, "idle");
    assert_eq!(meta.animations[0].start_col, 0);
    assert_eq!(meta.animations[0].frame_count, 2);
    assert_eq!(meta.animations[0].frame_duration_ms, 300);
    assert_eq!(meta.animations[1].name, "walk");
    assert_eq!(meta.animations[1].start_col, 2);
    assert_eq!(meta.animations[1].frame_count, 4);
    assert_eq!(meta.animations[2].name, "attack");
    assert_eq!(meta.animations[2].start_col, 6);
    assert_eq!(meta.animations[3].name, "hit");
    assert_eq!(meta.animations[3].start_col, 10);
}

#[test]
fn test_spritesheet_meta_single_direction_single_animation() {
    let meta = SpritesheetMeta::new("npc", 48, 48, &["down".into()], &[anim("idle", 1, 500)]);
    assert_eq!(meta.spritesheet.columns, 1);
    assert_eq!(meta.spritesheet.rows, 1);
    assert_eq!(meta.directions.len(), 1);
    assert_eq!(meta.animations.len(), 1);
}

#[test]
fn default_project_layout_matches_meta() {
    let directions = default_directions();
    let animations = default_animations();
    assert_eq!(directions, vec!["down", "left", "right", "up"]);
    let meta = SpritesheetMeta::new("hero", 32, 32, &directions, &animations);
    assert_eq!(meta.spritesheet.columns, 12);
    let plan = plan_spritesheet(&[], &directions, &animations, 32, 32, "/p", "hero");
    assert_eq!(plan.columns, meta.spritesheet.columns);
    assert_eq!(plan.rows, meta.spritesheet.rows);
    assert_eq!(plan.width, 12 * 32);
    assert_eq!(plan.height, 4 * 32);
    assert_eq!(plan.path, "/p/hero/spritesheet/hero.png");
    for (r, row) in plan.cells.iter().enumerate() {
        for cell in row {
            let a = meta.animations.iter().find(|m| m.name == cell.animation).unwrap();
            assert_eq!(cell.col, a.start_col + cell.frame_index as u32);
            assert_eq!(cell.x, cell.col * 32);
            assert_eq!(cell.y, r as u32 * 32);
            assert!(cell.source.is_none());
        }
    }
}

fn sprite(dir: &str, anim: &str, frame: i32, status: &str, final_path: Option<&str>) -> Sprite {
    Sprite {
        id: format!("{}-{}-{}", dir, anim, frame),
        character_id: "c".into(),
        direction: dir.into(),
        animation: anim.into(),
        frame_index: frame,
        raw_path: None,
        processed_path: None,
        final_path: final_path.map(String::from),
        status: status.into(),
        created_at: "t".into(),
    }
}

#[test]
fn sheet_takes_only_finalized_sprites() {
    let sprites = vec![
        sprite("down", "idle", 0, "finalized", Some("/f/a.png")),
        sprite("down", "idle", 1, "raw", Some("/f/b.png")),
        sprite("up", "idle", 0, "finalized", None),
    ];
    let plan = plan_spritesheet(&sprites, &["down".into(), "up".into()], &[anim("idle", 2, 100)], 16, 16, "/p", "c");
    assert_eq!(plan.cells[0][0].source, Some("/f/a.png".to_string()));
    assert_eq!(plan.cells[0][1].source, None);
    assert_eq!(plan.cells[1][0].source, None);
    assert_eq!(plan.cells[1][1].x, 16);
}

#[test]
fn export_targets_and_errors() {
    let t = plan_bevy_export("Dark Knight", &Some("/s.png".into()), true, "/game/assets").unwrap();
    assert_eq!(t.output_base, "/game/assets/characters");
    assert_eq!(t.png_path, "/game/assets/characters/dark_knight.png");
    assert_eq!(t.meta_path, "/game/assets/characters/dark_knight.meta.json");
    match plan_bevy_export("x", &None, true, "/o") {
        Err(AppError::Export(m)) => assert!(m.ends_with(": x")),
        other => panic!("{:?}", other),
    }
    match plan_bevy_export("x", &Some("/s.png".into()), false, "/o") {
        Err(AppError::Export(m)) => assert!(m.ends_with(": /s.png")),
        other => panic!("{:?}", other),
    }
    assert!(matches!(plan_bevy_export("!!!", &Some("/s.png".into()), true, "/o"), Err(AppError::Validation(_))));
}
