use adm_sfa::docs_fs::generate_filename;

#[test]
fn no_collision() {
    let name = generate_filename("2026-06-30", "purchase", 42, "ad", &[], "jpg");
    assert_eq!(name, "2026-06-30_purchase-42_ad.jpg");
}

#[test]
fn collision_appends_counter() {
    let existing = vec![
        "2026-06-30_purchase-42_chat.jpg".to_string(),
        "2026-06-30_purchase-42_chat-2.jpg".to_string(),
    ];
    let name = generate_filename("2026-06-30", "purchase", 42, "chat", &existing, "jpg");
    assert_eq!(name, "2026-06-30_purchase-42_chat-3.jpg");
}

#[test]
fn negative_record_ids_keep_their_sign() {
    let name = generate_filename("2026-06-30", "item", -7, "photo", &[], "png");
    assert_eq!(name, "2026-06-30_item--7_photo.png");
}

#[test]
fn a_free_gap_in_the_counter_is_reused() {
    let existing = vec![
        "2026-06-30_purchase-42_chat.jpg".to_string(),
        "2026-06-30_purchase-42_chat-3.jpg".to_string(),
    ];
    let name = generate_filename("2026-06-30", "purchase", 42, "chat", &existing, "jpg");
    assert_eq!(name, "2026-06-30_purchase-42_chat-2.jpg");
}
