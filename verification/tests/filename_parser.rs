use figurine_studio::services::filename_parser::{FilenameParser, ParsedFilename};

fn default_parser() -> FilenameParser {
    FilenameParser::new(
        vec!["down".into(), "left".into(), "right".into(), "up".into()],
        vec!["idle".into(), "walk".into(), "attack".into(), "hit".into()],
    )
}

fn parsed(character: &str, direction: &str, animation: &str, frame_index: u32) -> Option<ParsedFilename> {
    Some(ParsedFilename {
        character: character.into(),
        direction: direction.into(),
        animation: animation.into(),
        frame_index,
    })
}

#[test]
fn test_standard_filename() {
    let parser = default_parser();
    assert_eq!(parser.parse("warrior_down_idle_00.png"), parsed("warrior", "down", "idle", 0));
}

#[test]
fn test_multi_word_character_name() {
    let parser = default_parser();
    assert_eq!(parser.parse("dark_knight_left_walk_03.png"), parsed("dark_knight", "left", "walk", 3));
}

#[test]
fn test_hyphen_separator() {
    let parser = default_parser();
    assert_eq!(parser.parse("Goblin-Right-Hit-00.png"), parsed("goblin", "right", "hit", 0));
}

#[test]
fn test_case_insensitive() {
    let parser = default_parser();
    assert_eq!(parser.parse("Warrior_Down_Walk_01.png"), parsed("warrior", "down", "walk", 1));
}

#[test]
fn test_no_frame_number() {
    let parser = default_parser();
    assert_eq!(parser.parse("warrior_down_idle.png"), parsed("warrior", "down", "idle", 0));
}

#[test]
fn test_up_direction_attack_animation() {
    let parser = default_parser();
    assert_eq!(parser.parse("slime_up_attack_01.png"), parsed("slime", "up", "attack", 1));
}

#[test]
fn test_no_zero_padding() {
    let parser = default_parser();
    assert_eq!(parser.parse("warrior_down_walk_1.png"), parsed("warrior", "down", "walk", 1));
}

#[test]
fn test_jpg_extension() {
    let parser = default_parser();
    assert_eq!(parser.parse("warrior_down_idle_02.jpg"), parsed("warrior", "down", "idle", 2));
}

#[test]
fn test_too_few_parts() {
    let parser = default_parser();
    assert_eq!(parser.parse("warrior_down.png"), None);
}

#[test]
fn test_invalid_direction() {
    let parser = default_parser();
    assert_eq!(parser.parse("warrior_diagonal_idle_00.png"), None);
}

#[test]
fn test_invalid_animation() {
    let parser = default_parser();
    assert_eq!(parser.parse("warrior_down_dance_00.png"), None);
}

#[test]
fn test_empty_filename() {
    let parser = default_parser();
    assert_eq!(parser.parse(""), None);
}

#[test]
fn test_no_character_name() {
    let parser = default_parser();
    assert_eq!(parser.parse("down_idle_00.png"), None);
}

#[test]
fn test_filename_parser_multiple_filenames() {
    let parser = default_parser();
    let test_cases = vec![
        ("warrior_down_idle_00.png", "warrior", "down", "idle", 0),
        ("warrior_up_walk_03.png", "warrior", "up", "walk", 3),
        ("dark_knight_left_attack_02.png", "dark_knight", "left", "attack", 2),
        ("Goblin-Right-Hit-01.png", "goblin", "right", "hit", 1),
        ("slime_down_idle.png", "slime", "down", "idle", 0),
    ];
    for (filename, expected_char, expected_dir, expected_anim, expected_frame) in test_cases {
        let result = parser.parse(filename);
        assert!(result.is_some(), "Failed to parse: {}", filename);
        let parsed = result.unwrap();
        assert_eq!(parsed.character, expected_char, "Character mismatch for {}", filename);
        assert_eq!(parsed.direction, expected_dir, "Direction mismatch for {}", filename);
        assert_eq!(parsed.animation, expected_anim, "Animation mismatch for {}", filename);
        assert_eq!(parsed.frame_index, expected_frame, "Frame mismatch for {}", filename);
    }
    assert!(parser.parse("invalid.png").is_none());
    assert!(parser.parse("warrior_diagonal_idle_00.png").is_none());
    assert!(parser.parse("").is_none());
}

#[test]
fn test_filename_parser_with_project_directions_and_animations() {
    let parser = FilenameParser::new(
        vec!["north".into(), "south".into(), "east".into(), "west".into()],
        vec!["run".into(), "jump".into(), "die".into()],
    );
    let result = parser.parse("hero_north_run_05.png");
    assert!(result.is_some());
    let parsed = result.unwrap();
    assert_eq!(parsed.character, "hero");
    assert_eq!(parsed.direction, "north");
    assert_eq!(parsed.animation, "run");
    assert_eq!(parsed.frame_index, 5);
    assert!(parser.parse("hero_down_run_00.png").is_none());
}

#[test]
fn parse_round_trips_a_written_name() {
    let parser = default_parser();
    let name = format!("{}_{}_{}_{:02}.png", "fire_mage", "right", "attack", 7);
    assert_eq!(parser.parse(&name), parsed("fire_mage", "right", "attack", 7));
}

#[test]
fn parse_reads_webp_and_upper_case_extension_stays() {
    let parser = default_parser();
    assert_eq!(parser.parse("orc_left_hit_04.webp"), parsed("orc", "left", "hit", 4));
    // an upper-case extension is not removed, so the frame part does not read as a number
    assert_eq!(parser.parse("orc_left_hit_04.PNG"), parsed("orc", "left", "hit", 0));
}
