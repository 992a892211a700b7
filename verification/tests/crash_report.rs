use dat0_ui::crash_report::{kind_of, note_to_send, relaunch_step, RelaunchAction, ReportKind, StagedCrash};

fn staged_crash() -> StagedCrash {
    StagedCrash { message: "boom".into(), backtrace: "frame".into(), version: "0.1.0".into() }
}

#[test]
fn opting_out_discards_the_staged_crash_and_never_prompts() {
    assert_eq!(relaunch_step(RelaunchAction::DiscardOptOut), (None, true));
}

#[test]
fn opting_in_prompts_with_the_staged_payload_and_keeps_it_until_the_user_answers() {
    assert_eq!(relaunch_step(RelaunchAction::ShowCrash(staged_crash())), (Some(staged_crash()), false));
}

#[test]
fn a_marker_with_no_payload_is_swept_rather_than_surfaced() {
    assert_eq!(relaunch_step(RelaunchAction::DiscardMarkerOnly), (None, true));
}

#[test]
fn a_clean_launch_leaves_everything_alone() {
    assert_eq!(relaunch_step(RelaunchAction::Nothing), (None, false));
}

#[test]
fn the_two_kinds_are_told_apart() {
    assert_eq!(kind_of(None), ReportKind::Bug);
    assert_eq!(kind_of(Some(&staged_crash())), ReportKind::Crash(staged_crash()));
}

#[test]
fn a_blank_note_is_not_sent() {
    assert_eq!(note_to_send("  \n "), None);
    assert_eq!(note_to_send(" it froze "), Some(" it froze ".to_string()));
}
