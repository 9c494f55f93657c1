use netmd::control::{
    clamp_selection, key_command, level_choice_index, level_choices, menu_key, now_playing_seconds, poll_interval_ms,
    select_next, select_previous, selected_track, Key, MenuStep, PanelCommand,
};
use netmd::logbuf::LogFilter;
use netmd::rows::Row;
use netmd::types::PlaybackState;

fn rows() -> Vec<Row> {
    vec![Row::Group("a".into()), Row::Track(1), Row::Track(2), Row::Group("b".into()), Row::Track(4)]
}

#[test]
fn keys_map_to_commands() {
    assert_eq!(key_command(Key::Char('q'), false), PanelCommand::Quit);
    assert_eq!(key_command(Key::Char('c'), true), PanelCommand::Quit);
    assert_eq!(key_command(Key::Char('c'), false), PanelCommand::Nothing);
    assert_eq!(key_command(Key::Char(' '), false), PanelCommand::TogglePlayPause);
    assert_eq!(key_command(Key::Char('j'), false), PanelCommand::SelectNext);
    assert_eq!(key_command(Key::Up, false), PanelCommand::SelectPrevious);
    assert_eq!(key_command(Key::Enter, false), PanelCommand::GotoSelected);
    assert_eq!(key_command(Key::Char('R'), false), PanelCommand::Reload);
    assert_eq!(key_command(Key::Other, false), PanelCommand::Nothing);
}

#[test]
fn selection_moves_between_track_rows() {
    let r = rows();
    assert_eq!(select_next(&r, None), Some(1));
    assert_eq!(select_next(&r, Some(2)), Some(4));
    assert_eq!(select_next(&r, Some(4)), Some(4));
    assert_eq!(select_previous(&r, Some(4)), Some(2));
    assert_eq!(select_previous(&r, Some(1)), Some(1));
    assert_eq!(clamp_selection(&r, Some(3)), Some(1));
    assert_eq!(clamp_selection(&r, Some(2)), Some(2));
    assert_eq!(clamp_selection(&r, Some(9)), Some(1));
    assert_eq!(selected_track(&r, Some(4)), Some(4));
    assert_eq!(selected_track(&r, Some(0)), None);
    assert_eq!(selected_track(&r, None), None);
}

#[test]
fn level_menu_moves_within_its_entries() {
    assert_eq!(level_choices().len(), 6);
    assert_eq!(level_choices()[level_choice_index(LogFilter::Debug)], LogFilter::Debug);
    assert_eq!(menu_key(Key::Up, Some(0)), MenuStep::Highlight(0));
    assert_eq!(menu_key(Key::Down, Some(5)), MenuStep::Highlight(5));
    assert_eq!(menu_key(Key::Char('j'), None), MenuStep::Highlight(1));
    assert_eq!(menu_key(Key::Enter, Some(3)), MenuStep::Choose(3));
    assert_eq!(menu_key(Key::Esc, Some(3)), MenuStep::Close);
    assert_eq!(menu_key(Key::Char('x'), Some(3)), MenuStep::Stay);
}

#[test]
fn polling_is_faster_while_moving() {
    assert_eq!(poll_interval_ms(Some(PlaybackState::Playing)), 500);
    assert_eq!(poll_interval_ms(Some(PlaybackState::Rewind)), 500);
    assert_eq!(poll_interval_ms(Some(PlaybackState::Paused)), 1500);
    assert_eq!(poll_interval_ms(None), 1500);
}

#[test]
fn playing_progress_in_seconds() {
    assert_eq!(now_playing_seconds(65, 30, &[0, 6, 52, 42]), (3930, 412));
}
