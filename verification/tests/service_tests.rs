use std::cell::RefCell;

use adm_sfa::service::{attach_document, attach_documents, file_document, resolve_filing_date, PendingDocument};

fn labels() -> Result<Vec<String>, String> {
    Ok(vec!["chat".to_string(), "receipt".to_string(), "ad".to_string()])
}

#[test]
fn resolve_filing_date_prefers_the_parsed_draft_date() {
    assert_eq!(resolve_filing_date("16.07.2026", Some("2020-01-01")), "2026-07-16");
}

#[test]
fn resolve_filing_date_falls_back_to_the_persisted_date_when_draft_is_unparseable() {
    assert_eq!(resolve_filing_date("not a date", Some("2020-01-01")), "2020-01-01");
}

#[test]
fn resolve_filing_date_falls_back_to_today_when_nothing_else_is_available() {
    let today = chrono::Local::now().format("%Y-%m-%d").to_string();
    assert_eq!(resolve_filing_date("", None), today);
}

#[test]
fn resolve_filing_date_accepts_an_iso_draft_date() {
    assert_eq!(resolve_filing_date(" 2026-01-01 ", None), "2026-01-01");
}

#[test]
fn file_document_lowercases_the_extension_and_defaults_to_bin() {
    let filed = RefCell::new(Vec::new());
    let file = |_: &str, _: &str, name: &str| -> Result<(), String> {
        filed.borrow_mut().push(name.to_string());
        Ok(())
    };
    let png = "/tmp/Chat.PNG";
    let name = file_document(png, "2026-06-30", ("purchase", 42), "chat", &[], &file).unwrap();
    assert_eq!(name, "2026-06-30_purchase-42_chat.png");
    let bare = "/tmp/scan";
    let existing = vec!["2026-06-30_purchase-42_chat.bin".to_string()];
    let name = file_document(bare, "2026-06-30", ("purchase", 42), "chat", &existing, &file).unwrap();
    assert_eq!(name, "2026-06-30_purchase-42_chat-2.bin");
    assert_eq!(filed.borrow().len(), 2);
}

#[test]
fn file_document_reports_the_filing_error() {
    let file = |_: &str, _: &str, _: &str| -> Result<(), String> { Err("Copy failed: denied".to_string()) };
    let src = "/tmp/a.jpg";
    let r = file_document(src, "2026-06-30", ("transfer", 1), "receipt", &[], &file);
    assert_eq!(r, Err("Copy failed: denied".to_string()));
}

#[test]
fn attach_document_rejects_a_label_outside_document_label() {
    let called = RefCell::new(0);
    let file = |_: &str, _: &str, _: &str| -> Result<(), String> {
        *called.borrow_mut() += 1;
        Ok(())
    };
    let src = "/tmp/chat.png";
    let r = attach_document(src, "2026-01-01", None, ("purchase", 1), "../../../etc/passwd", &[], &labels(), &file);
    assert_eq!(r, Err("Unknown document label: \"../../../etc/passwd\"".to_string()));
    assert_eq!(*called.borrow(), 0);
}

#[test]
fn attach_document_accepts_a_known_label_after_trimming() {
    let file = |_: &str, _: &str, _: &str| -> Result<(), String> { Ok(()) };
    let src = "/tmp/chat.png";
    let r = attach_document(src, "01.01.2026", None, ("purchase", 1), "  chat ", &[], &labels(), &file);
    assert_eq!(r, Ok("2026-01-01_purchase-1_chat.png".to_string()));
}

#[test]
fn attach_document_passes_on_a_failed_label_lookup() {
    let file = |_: &str, _: &str, _: &str| -> Result<(), String> { Ok(()) };
    let src = "/tmp/chat.png";
    let known: Result<Vec<String>, String> = Err("database is locked".to_string());
    let r = attach_document(src, "2026-01-01", None, ("purchase", 1), "chat", &[], &known, &file);
    assert_eq!(r, Err("database is locked".to_string()));
}

#[test]
fn attach_documents_deduplicates_filenames_within_one_batch() {
    let a = "/tmp/a.png";
    let b = "/tmp/b.png";
    let pending = vec![
        PendingDocument { path: a, label: "chat" },
        PendingDocument { path: b, label: "chat" },
    ];
    let outcomes = attach_documents(Vec::new(), "2026-01-01", None, ("purchase", 9), &pending, &labels(), |_: &str, _: &str, _: &str| Ok(()));
    let names: Vec<String> = outcomes.iter().map(|o| o.result.clone().unwrap()).collect();
    assert_eq!(names, vec!["2026-01-01_purchase-9_chat.png", "2026-01-01_purchase-9_chat-2.png"]);
    assert_eq!(outcomes[0].source_name, "a.png");
    assert_eq!(outcomes[1].label, "chat");
}

#[test]
fn attach_documents_avoids_the_names_already_on_the_record() {
    let a = "/tmp/a.png";
    let pending = vec![PendingDocument { path: a, label: "chat" }];
    let existing = vec!["2026-01-01_purchase-9_chat.png".to_string()];
    let outcomes = attach_documents(existing, "2026-01-01", None, ("purchase", 9), &pending, &labels(), |_: &str, _: &str, _: &str| Ok(()));
    assert_eq!(outcomes[0].result, Ok("2026-01-01_purchase-9_chat-2.png".to_string()));
}

#[test]
fn attach_documents_records_a_per_file_failure_without_stopping() {
    let good = "/tmp/good.png";
    let bad = "/tmp/bad.png";
    let missing = "/tmp/missing.png";
    let after = "/tmp/after.pdf";
    let pending = vec![
        PendingDocument { path: good, label: "chat" },
        PendingDocument { path: bad, label: "not-a-real-label" },
        PendingDocument { path: missing, label: "receipt" },
        PendingDocument { path: after, label: "receipt" },
    ];
    let file = |p: &str, _: &str, _: &str| -> Result<(), String> {
        if p.ends_with("missing.png") {
            Err("Copy failed: not found".to_string())
        } else {
            Ok(())
        }
    };
    let outcomes = attach_documents(Vec::new(), "2026-01-01", None, ("transfer", 3), &pending, &labels(), file);
    assert_eq!(outcomes.len(), 4);
    assert!(outcomes[0].result.is_ok());
    assert_eq!(outcomes[1].result, Err("Unknown document label: \"not-a-real-label\"".to_string()));
    assert_eq!(outcomes[2].result, Err("Copy failed: not found".to_string()));
    assert_eq!(outcomes[3].result, Ok("2026-01-01_transfer-3_receipt.pdf".to_string()));
}

#[test]
fn attach_documents_with_no_attachments_returns_no_outcomes() {
    let outcomes = attach_documents(Vec::new(), "2026-01-01", None, ("purchase", 1), &[], &labels(), |_: &str, _: &str, _: &str| Ok(()));
    assert!(outcomes.is_empty());
}

#[test]
fn attach_document_files_under_the_trimmed_label() {
    let seen = RefCell::new(Vec::new());
    let file = |_: &str, label: &str, name: &str| -> Result<(), String> {
        seen.borrow_mut().push((label.to_string(), name.to_string()));
        Ok(())
    };
    let src = "/tmp/receipt.PDF";
    let r = attach_document(src, "bad date", Some("2025-12-24"), ("transfer", 2), " receipt ", &[], &labels(), &file);
    assert_eq!(r, Ok("2025-12-24_transfer-2_receipt.pdf".to_string()));
    assert_eq!(seen.borrow()[0], ("receipt".to_string(), "2025-12-24_transfer-2_receipt.pdf".to_string()));
}

#[test]
fn file_document_copies_and_inserts_in_one_call() {
    let filed = RefCell::new(Vec::new());
    let file = |p: &str, label: &str, name: &str| -> Result<(), String> {
        filed.borrow_mut().push((p.to_string(), label.to_string(), name.to_string()));
        Ok(())
    };
    let r = file_document("/tmp/source.png", "2026-06-30", ("purchase", 42), "ad", &[], &file);
    assert_eq!(r, Ok("2026-06-30_purchase-42_ad.png".to_string()));
    assert_eq!(
        filed.borrow()[0],
        ("/tmp/source.png".to_string(), "ad".to_string(), "2026-06-30_purchase-42_ad.png".to_string())
    );
    let failing = |_: &str, _: &str, _: &str| -> Result<(), String> { Err("DB insert failed: locked".to_string()) };
    let r = file_document("/tmp/source.png", "2026-06-30", ("purchase", 42), "ad", &[], &failing);
    assert_eq!(r, Err("DB insert failed: locked".to_string()));
}

#[test]
fn attach_document_accepts_a_known_label() {
    let filed = RefCell::new(0);
    let file = |_: &str, _: &str, _: &str| -> Result<(), String> {
        *filed.borrow_mut() += 1;
        Ok(())
    };
    let r = attach_document("/tmp/chat.png", "2026-01-01", None, ("purchase", 1), "chat", &[], &labels(), &file);
    assert!(r.is_ok());
    assert_eq!(*filed.borrow(), 1);
}

#[test]
fn document_filename_keeps_the_source_extension() {
    let name = adm_sfa::service::document_filename("/tmp/scan.JPeG", "2026-06-30", ("item", 5), "photo", &[]);
    assert_eq!(name, "2026-06-30_item-5_photo.jpeg");
    let name = adm_sfa::service::document_filename("/tmp/archive.tar.gz", "2026-06-30", ("item", 5), "photo", &[]);
    assert_eq!(name, "2026-06-30_item-5_photo.gz");
}

#[test]
fn check_label_trims_and_refuses_unknown_labels() {
    assert_eq!(adm_sfa::service::check_label(" chat ", &labels()), Ok("chat".to_string()));
    assert_eq!(
        adm_sfa::service::check_label("x", &labels()),
        Err("Unknown document label: \"x\"".to_string())
    );
}

#[test]
fn attach_documents_reports_each_source_file_name() {
    let pending = vec![
        PendingDocument { path: "/tmp/dir/one.png", label: "chat" },
        PendingDocument { path: "/tmp/dir/", label: "nope" },
    ];
    let outcomes = attach_documents(Vec::new(), "2026-01-01", None, ("purchase", 9), &pending, &labels(), |_: &str, _: &str, _: &str| Ok(()));
    assert_eq!(outcomes[0].source_name, "one.png");
    assert_eq!(outcomes[1].source_name, "dir");
}
