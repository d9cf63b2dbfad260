use oretachi::main_thread_watch::{
    enter, name_for, now_ms, restore, snapshot, ui_thread_id, record_ui_thread, Activity, Breadcrumb,
    LABELS,
};

#[test]
fn labels_len_matches_max_discriminant() {
    assert_eq!(LABELS.len(), Activity::GetForceWizard as usize + 1);
}

#[test]
fn enum_discriminant_maps_to_label() {
    assert_eq!(name_for(Activity::Idle as u8), "idle");
    assert_eq!(name_for(Activity::RunEvent as u8), "run-event");
    assert_eq!(name_for(Activity::PtyWrite as u8), "cmd:pty_write");
    assert_eq!(name_for(Activity::SaveSettings as u8), "cmd:save_settings");
    assert_eq!(name_for(Activity::GetForceWizard as u8), "cmd:get_force_wizard");
}

#[test]
fn name_for_out_of_range_is_question_mark() {
    assert_eq!(name_for(254), "?");
}

#[test]
fn guard_restores_previous_breadcrumb() {
    let mut state = Breadcrumb::new();
    let outer = enter(&mut state, Activity::PtyWrite, 10);
    assert_eq!(snapshot(&state, 10).label, "cmd:pty_write");
    {
        let inner = enter(&mut state, Activity::SaveSettings, 20);
        assert_eq!(snapshot(&state, 20).label, "cmd:save_settings");
        restore(&mut state, inner);
    }
    assert_eq!(snapshot(&state, 30).label, "cmd:pty_write");
    restore(&mut state, outer);
    assert_eq!(snapshot(&state, 40).label, "idle");
}

#[test]
fn discriminant_agrees_with_declaration_order_and_labels() {
    for (i, label) in LABELS.iter().enumerate() {
        assert_eq!(name_for(i as u8), *label);
    }
    assert_eq!(Activity::WatchdogProbe.discriminant(), Activity::WatchdogProbe as u8);
    assert_eq!(Activity::GetForceWizard.discriminant(), 22);
}

#[test]
fn snapshot_age_is_time_since_entering() {
    let mut state = Breadcrumb::new();
    let _g = enter(&mut state, Activity::RunEvent, 1_000);
    let s = snapshot(&state, 1_750);
    assert_eq!(s.label, "run-event");
    assert_eq!(s.age_ms, 750);
    // a clock reading before the start counts as no time
    assert_eq!(snapshot(&state, 500).age_ms, 0);
}

#[test]
fn now_ms_is_zero_before_the_clock_starts() {
    assert_eq!(now_ms(None), 0);
    assert_eq!(now_ms(Some(1234)), 1234);
}

#[test]
fn ui_thread_id_is_recorded() {
    let mut state = Breadcrumb::new();
    assert_eq!(ui_thread_id(&state), 0);
    record_ui_thread(&mut state, 4242);
    assert_eq!(ui_thread_id(&state), 4242);
}
