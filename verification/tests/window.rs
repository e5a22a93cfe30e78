use riiman::main_window::{
    FirstVisibleTracker, MainWindow, MenuAction, MenuEffect, TaskReaction, TaskReport,
};
use riiman::message::MessageType;

#[test]
fn vault_reports_end_the_vault_task() {
    let mut w = MainWindow::new();
    assert_eq!(MenuEffect::StartLoadVault, w.on_menu(MenuAction::OpenVault, false));
    assert!(w.vault_loading);
    match w.on_task_report(TaskReport::VaultLoaded("pictures".to_string())) {
        TaskReaction::SetCurrentVault(name) => assert_eq!("pictures", name),
        _ => panic!("the loaded vault is not made current"),
    }
    assert!(!w.vault_loading);
    assert_eq!(MenuEffect::StartSaveVault, w.on_menu(MenuAction::SaveVault, true));
    assert!(w.vault_loading);
    assert!(matches!(w.on_task_report(TaskReport::VaultSaved), TaskReaction::Nothing));
    assert!(!w.vault_loading);
    assert!(w.msg_dialogs.is_empty());
}

#[test]
fn menu_entries_follow_the_vault_task() {
    let mut w = MainWindow::new();
    let m = w.menu_state(false);
    assert!(m.new_enabled && m.open_enabled);
    assert!(!m.save_shown && !m.save_enabled && !m.import_shown);
    assert_eq!(MenuEffect::Ignored, w.on_menu(MenuAction::SaveVault, false));
    assert_eq!(MenuEffect::Ignored, w.on_menu(MenuAction::ImportAll, false));
    assert_eq!(MenuEffect::OpenNewVaultDialog, w.on_menu(MenuAction::NewVault, false));
    assert!(!w.vault_loading);
    w.on_new_vault_name();
    assert!(w.vault_loading);
    let m = w.menu_state(true);
    assert!(!m.new_enabled && !m.open_enabled && m.save_shown && !m.save_enabled);
    assert!(m.import_shown);
    assert_eq!(MenuEffect::Ignored, w.on_menu(MenuAction::NewVault, true));
    assert_eq!(MenuEffect::Ignored, w.on_menu(MenuAction::OpenVault, true));
    assert_eq!(MenuEffect::Ignored, w.on_menu(MenuAction::SaveVault, true));
    assert_eq!(MenuEffect::StartImport, w.on_menu(MenuAction::ImportAll, true));
    assert_eq!(MenuEffect::CloseWindow, w.on_menu(MenuAction::Quit, true));
}

#[test]
fn reports_open_dialogs() {
    let mut w = MainWindow::new();
    let r = w.on_task_report(TaskReport::ImportComplete {
        path: "/photos".to_string(),
        results: vec![true, false, true],
    });
    assert!(matches!(r, TaskReaction::Nothing));
    assert_eq!(1, w.msg_dialogs.len());
    assert_eq!(MessageType::Success, w.msg_dialogs[0].msg_type);
    assert_eq!(Some("Import complete".to_string()), w.msg_dialogs[0].title);
    assert_eq!(
        "Import of /photos complete. 2/3 images imported successfully.",
        w.msg_dialogs[0].message
    );
    w.on_task_report(TaskReport::WasmNotImplemented);
    w.on_task_report(TaskReport::Failed("disk full".to_string()));
    assert_eq!(3, w.msg_dialogs.len());
    assert_eq!(MessageType::Error, w.msg_dialogs[1].msg_type);
    assert_eq!("Not implemented in WASM", w.msg_dialogs[1].message);
    assert_eq!("disk full", w.msg_dialogs[2].message);
    assert_eq!(None, w.msg_dialogs[2].title);
    assert!(matches!(w.on_task_report(TaskReport::Other), TaskReaction::Nothing));
    assert_eq!(3, w.msg_dialogs.len());
}

#[test]
fn loaded_thumbnails_go_to_the_right_caches() {
    let mut w = MainWindow::new();
    match w.on_task_report(TaskReport::ThumbnailLoaded { height: 128 }) {
        TaskReaction::CommitThumbnail { low_quality } => assert!(low_quality),
        _ => panic!("a thumbnail is not stored"),
    }
    match w.on_task_report(TaskReport::ThumbnailLoaded { height: 512 }) {
        TaskReaction::CommitThumbnail { low_quality } => assert!(!low_quality),
        _ => panic!("a thumbnail is not stored"),
    }
}

#[test]
fn closed_dialogs_leave() {
    let mut w = MainWindow::new();
    w.error("a".to_string());
    w.error("b".to_string());
    w.success("Done".to_string(), "c".to_string());
    w.close_dialogs(&[true, false]);
    assert_eq!(1, w.msg_dialogs.len());
    assert_eq!("a", w.msg_dialogs[0].message);
    w.close_dialogs(&[true]);
    assert_eq!(1, w.msg_dialogs.len());
    w.close_dialogs(&[false]);
    assert!(w.msg_dialogs.is_empty());
}

#[test]
fn a_stored_vault_is_loaded_at_start() {
    let mut w = MainWindow::new();
    assert!(!w.restore(&None));
    assert!(!w.vault_loading);
    assert!(w.restore(&Some("/vaults/a.vault".to_string())));
    assert!(w.vault_loading);
}

#[test]
fn first_visible_item_is_kept_in_view() {
    let mut t = FirstVisibleTracker::new();
    let a = "a.png".to_string();
    let b = "b.png".to_string();
    assert!(!t.visit_item_at(&a, false, 0, 10, 10));
    assert!(!t.visit_item_at(&b, true, 0, 10, 10));
    assert_eq!(Some(b.clone()), t.next_first_visible);
    assert!(!t.visit_item_at(&a, true, 0, 10, 10));
    assert_eq!(Some(b.clone()), t.next_first_visible);
    t.finish_frame();
    assert_eq!(Some(b.clone()), t.first_visible);
    assert_eq!(None, t.next_first_visible);
    t.layout_changed();
    assert!(!t.visit_item_at(&a, true, 0, 20, 20));
    assert!(t.visit_item_at(&b, true, 0, 20, 20));
    assert!(!t.set_scroll);
    assert_eq!(Some(1520), t.cooldown_until_ms);
    // during the cooldown nothing is recorded
    let c = "c.png".to_string();
    let mut u = FirstVisibleTracker::new();
    u.cooldown_until_ms = Some(100);
    assert!(!u.visit_item_at(&c, true, 0, 99, 99));
    assert_eq!(None, u.next_first_visible);
    assert!(!u.visit_item(&c, true));
    assert_eq!(Some(c.clone()), u.next_first_visible);
}

#[test]
fn without_a_record_the_empty_path_is_the_target() {
    let mut t = FirstVisibleTracker::new();
    t.layout_changed();
    assert!(!t.visit_item_at(&"x".to_string(), false, 0, 0, 0));
    assert!(t.visit_item_at(&String::new(), false, 0, 0, 0));
}
