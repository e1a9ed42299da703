use battle_server::db::models::{Model3D, Monster};
use battle_server::db::test_model_id;
use battle_server::handlers::model_upload::{
    check_upload, extension_of, new_model_id, sanitize_filename, storage_path, storage_path_with,
    UploadError,
    MAX_FILE_SIZE,
};
use battle_server::models::MonsterStats;

#[test]
fn sanitize_filename_keeps_letters_digits_and_three_marks() {
    assert_eq!(sanitize_filename("model.glb"), "model.glb");
    assert_eq!(sanitize_filename("../../etc/passwd"), "....etcpasswd");
    assert_eq!(sanitize_filename("a b\\c:d*e?.gl b"), "abcde.glb");
    assert_eq!(sanitize_filename("my_model-v2.GLTF"), "my_model-v2.GLTF");
    assert_eq!(sanitize_filename(""), "");
    assert_eq!(sanitize_filename("/\\ \t"), "");
    // Letters and digits of any script stay.
    assert_eq!(sanitize_filename("モデル/１.glb"), "モデル１.glb");
}

#[test]
fn uploads_are_accepted_by_extension_or_by_type() {
    assert_eq!(check_upload("a.glb", "text/plain", 10), Ok(()));
    assert_eq!(check_upload("a.GLB", "", 10), Ok(()));
    assert_eq!(check_upload("a.Gltf", "image/png", 10), Ok(()));
    assert_eq!(check_upload("a.bin", "model/gltf-binary", 10), Ok(()));
    assert_eq!(check_upload("a", "application/octet-stream", 10), Ok(()));
    assert_eq!(check_upload("a.txt", "model/gltf+json", 10), Ok(()));
    assert_eq!(check_upload("a.glb", "model/gltf-binary", MAX_FILE_SIZE), Ok(()));
    assert_eq!(check_upload("a.glb", "model/gltf-binary", 0), Ok(()));
}

#[test]
fn uploads_are_refused_for_size_name_and_type_in_that_order() {
    assert_eq!(MAX_FILE_SIZE, 50 * 1024 * 1024);
    assert_eq!(check_upload("", "text/plain", MAX_FILE_SIZE + 1), Err(UploadError::TooLarge));
    assert_eq!(check_upload("a.glb", "model/gltf-binary", MAX_FILE_SIZE + 1), Err(UploadError::TooLarge));
    assert_eq!(check_upload("", "text/plain", 1), Err(UploadError::NoFile));
    assert_eq!(check_upload("", "model/gltf-binary", 1), Err(UploadError::NoFile));
    assert_eq!(check_upload("a.png", "image/png", 1), Err(UploadError::InvalidType));
    assert_eq!(check_upload("glb", "Model/GLTF-Binary", 1), Err(UploadError::InvalidType));
    assert_eq!(check_upload("a.glb.txt", "", 1), Err(UploadError::InvalidType));
}

#[test]
fn stored_files_are_named_by_model_id_and_extension() {
    assert_eq!(storage_path("abc", "model.glb"), "uploads/models/abc.glb");
    assert_eq!(storage_path("abc", "archive.tar.GLTF"), "uploads/models/abc.GLTF");
    assert_eq!(storage_path("abc", "noextension"), "uploads/models/abc.bin");
    assert_eq!(storage_path("abc", ".hidden"), "uploads/models/abc.bin");
    assert_eq!(storage_path("", ""), "uploads/models/.bin");
    assert_eq!(storage_path("abc", ".hidden.glb"), "uploads/models/abc.glb");
    assert_eq!(storage_path("abc", "model."), "uploads/models/abc.");
}

#[test]
fn the_extension_is_what_follows_the_last_dot() {
    assert_eq!(extension_of("model.glb"), Some("glb".to_string()));
    assert_eq!(extension_of("archive.tar.gz"), Some("gz".to_string()));
    assert_eq!(extension_of("noextension"), None);
    assert_eq!(extension_of(""), None);
    assert_eq!(extension_of("."), None);
    assert_eq!(extension_of(".."), None);
    assert_eq!(extension_of(".hidden"), None);
    assert_eq!(extension_of("model."), Some(String::new()));
    assert_eq!(extension_of("..."), Some(String::new()));
    assert_eq!(extension_of("a..b"), Some("b".to_string()));
    assert_eq!(extension_of("..b"), Some("b".to_string()));
    assert_eq!(extension_of("モデル.glb"), Some("glb".to_string()));
    // On names without a path separator this is the platform's own rule.
    for name in ["model.glb", "archive.tar.gz", "noextension", "", ".", "..", ".hidden", "model.", "...", "a..b", "..b", "a-b_c.GLTF"] {
        let expected = std::path::Path::new(name)
            .extension()
            .and_then(|e| e.to_str())
            .map(|e| e.to_string());
        assert_eq!(extension_of(name), expected, "for {:?}", name);
    }
}

#[test]
fn model_ids_are_fresh_uuids() {
    let one = new_model_id();
    let two = new_model_id();
    assert_ne!(one, two);
    let parsed = uuid::Uuid::parse_str(&one).expect("a UUID");
    assert_eq!(parsed.to_string(), one);
    assert_eq!(parsed.get_version_num(), 4);
}

#[test]
fn a_new_model_record_is_unused_and_dated() {
    let m = Model3D::new(
        "id".to_string(),
        "a.glb".to_string(),
        "uploads/models/id.glb".to_string(),
        1024,
        "model/gltf-binary".to_string(),
    );
    assert!(!m.is_used);
    assert_eq!(m.id, "id");
    assert_eq!(m.file_name, "a.glb");
    assert_eq!(m.file_path, "uploads/models/id.glb");
    assert_eq!(m.file_size, 1024);
    assert_eq!(m.mime_type, "model/gltf-binary");
    let when = chrono::DateTime::parse_from_rfc3339(&m.uploaded_at).expect("RFC 3339");
    assert!((chrono::Utc::now().timestamp() - when.timestamp()).abs() < 60);
    assert_eq!(m.clone(), m);
}

#[test]
fn monster_stats_copy_the_record() {
    let monster = Monster {
        name: "Drake".to_string(),
        max_hp: 300,
        short_range_attack_power: 40,
        long_range_attack_power: 25,
        defense_power: 15,
        move_speed: 7,
        attack_range: 3,
        attack_cooldown: 2,
        size_type: "Large".to_string(),
    };
    let stats = MonsterStats::from_monster(&monster);
    assert_eq!(
        stats,
        MonsterStats {
            name: "Drake".to_string(),
            max_hp: 300,
            short_range_attack_power: 40,
            long_range_attack_power: 25,
            defense_power: 15,
            move_speed: 7,
            attack_range: 3,
            attack_cooldown: 2,
            size_type: "Large".to_string(),
        }
    );
}

#[test]
fn storage_paths_take_the_extension_they_are_given() {
    assert_eq!(storage_path_with("id", Some("glb")), "uploads/models/id.glb");
    assert_eq!(storage_path_with("id", Some("")), "uploads/models/id.");
    assert_eq!(storage_path_with("id", None), "uploads/models/id.bin");
}

#[test]
fn shipped_models_are_registered_under_ids_made_from_their_names() {
    assert_eq!(test_model_id("Knight.glb"), "character_knight");
    assert_eq!(test_model_id("Fire Dragon 2.glb"), "character_fire_dragon_2");
    assert_eq!(test_model_id("a.glb.glb"), "character_a");
    assert_eq!(test_model_id(".glb"), "character_");
    assert_eq!(test_model_id("NoEnding"), "character_noending");
    assert_eq!(test_model_id("x.GLB"), "character_x.glb");
    assert_eq!(test_model_id(""), "character_");
}
