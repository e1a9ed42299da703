use battle_server::models::SizeType;

#[test]
fn size_type_from_str_knows_the_three_names() {
    assert_eq!(SizeType::from_str("Small"), Some(SizeType::Small));
    assert_eq!(SizeType::from_str("Medium"), Some(SizeType::Medium));
    assert_eq!(SizeType::from_str("Large"), Some(SizeType::Large));
    assert_eq!(SizeType::from_str("small"), None);
    assert_eq!(SizeType::from_str(""), None);
}

#[test]
fn size_type_to_string_round_trips() {
    for size in [SizeType::Small, SizeType::Medium, SizeType::Large] {
        assert_eq!(SizeType::from_str(&size.to_string()), Some(size));
    }
    assert_eq!(SizeType::Large.to_string(), "Large");
}
