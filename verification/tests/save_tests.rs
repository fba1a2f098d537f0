use rtgc_siberian_cities::save_system::{parse_slot, slots_from_file_names, SaveSystem};

#[test]
fn save_file_path_joins_directory_and_name() {
    let saves = SaveSystem::new("saves");
    assert_eq!(saves.save_file_path(7), "saves/save_7.json");
    assert_eq!(saves.save_file_path(0), "saves/save_0.json");
    assert_eq!(saves.save_file_path(4294967295), "saves/save_4294967295.json");
}

#[test]
fn parse_slot_reads_save_file_names() {
    assert_eq!(parse_slot("save_3.json"), Some(3));
    assert_eq!(parse_slot("save_0012.json"), Some(12));
    assert_eq!(parse_slot("save_+5.json"), Some(5));
    assert_eq!(parse_slot("save_4294967295.json"), Some(4294967295));
}

#[test]
fn parse_slot_rejects_other_names() {
    assert_eq!(parse_slot("save_.json"), None);
    assert_eq!(parse_slot("save_4294967296.json"), None);
    assert_eq!(parse_slot("save_-1.json"), None);
    assert_eq!(parse_slot("save_1.txt"), None);
    assert_eq!(parse_slot("autosave.json"), None);
    assert_eq!(parse_slot("save_1a.json"), None);
    assert_eq!(parse_slot("save_+.json"), None);
    assert_eq!(parse_slot(""), None);
}

#[test]
fn path_and_parse_round_trip() {
    let saves = SaveSystem::new("dir");
    for slot in [0u32, 1, 9, 10, 65535, 4294967295] {
        let path = saves.save_file_path(slot);
        let name = path.strip_prefix("dir/").unwrap();
        assert_eq!(parse_slot(name), Some(slot));
    }
}

#[test]
fn slots_are_listed_in_ascending_order() {
    let names = vec![
        "save_10.json".to_string(),
        "notes.txt".to_string(),
        "save_2.json".to_string(),
        "save_2.json".to_string(),
        "save_0.json".to_string(),
    ];
    assert_eq!(slots_from_file_names(&names), vec![0, 2, 2, 10]);
    assert!(slots_from_file_names(&Vec::new()).is_empty());
}
