use dronelink::panels::{
    DroneView, NoteEditorView, RCView, AUTORELOAD_INTERVAL_MS, AUTOSAVE_INTERVAL_MS,
};

#[test]
fn view_toggles_flip_and_start_closed() {
    let mut dv = DroneView::default();
    assert!(!dv.is_open);
    dv.toggle();
    assert!(dv.is_open);
    dv.toggle();
    assert!(!dv.is_open);

    let mut rv = RCView::default();
    assert!(!rv.is_open);
    rv.toggle();
    assert!(rv.is_open);
}

#[test]
fn note_editor_autosave_and_reload_timing() {
    let mut ed = NoteEditorView::new(String::from("notes"), Some(100), 1000);
    assert!(!ed.is_open);
    assert_eq!(ed.content, "notes");
    assert!(!ed.autosave_due(1000));
    assert!(!ed.autosave_due(1000 + AUTOSAVE_INTERVAL_MS - 1));
    assert!(ed.autosave_due(1000 + AUTOSAVE_INTERVAL_MS));
    assert!(!ed.autoreload_due(1000 + AUTORELOAD_INTERVAL_MS - 1));
    assert!(ed.autoreload_due(1000 + AUTORELOAD_INTERVAL_MS));

    ed.mark_saved(2000, Some(150));
    assert_eq!(ed.last_save_ms, 2000);
    assert_eq!(ed.last_modified_ms, Some(150));
    assert_eq!(ed.status_message, "File saved successfully");
    assert!(!ed.autosave_due(2000 + AUTOSAVE_INTERVAL_MS - 1));
}

#[test]
fn note_editor_reload_decision_and_apply() {
    let mut ed = NoteEditorView::new(String::from("a"), Some(100), 0);
    assert!(!ed.reload_needed(Some(100))); // unchanged file
    assert!(!ed.reload_needed(Some(50))); // older than last seen
    assert!(ed.reload_needed(Some(101))); // strictly newer
    assert!(!ed.reload_needed(None)); // file not inspectable

    let mut fresh = NoteEditorView::new(String::from("b"), None, 0);
    assert!(fresh.reload_needed(Some(1))); // nothing recorded yet
    fresh.apply_reload(String::from("outside edit"), Some(1), 7);
    assert_eq!(fresh.content, "outside edit");
    assert_eq!(fresh.last_reload_ms, 7);
    assert_eq!(fresh.last_modified_ms, Some(1));
    assert_eq!(fresh.status_message, "File reloaded successfully");

    ed.toggle();
    assert!(ed.is_open);
}

#[test]
fn note_editor_automatic_reload_has_its_own_message() {
    let mut ed = NoteEditorView::new(String::from("a"), Some(100), 0);
    assert!(ed.reload_needed(Some(200)));
    ed.apply_auto_reload(String::from("changed outside"), Some(200), 9);
    assert_eq!(ed.content, "changed outside");
    assert_eq!(ed.last_reload_ms, 9);
    assert_eq!(ed.last_modified_ms, Some(200));
    assert_eq!(ed.status_message, "File automatically reloaded due to external changes");
    // A second check against the same modification time asks for nothing.
    assert!(!ed.reload_needed(Some(200)));
}
