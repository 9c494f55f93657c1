//! The decisions of the interactive control panel: which command a key
//! stands for, how the track selection and the log-level menu move, how
//! often the status is refreshed, and the playing track's progress.
use vstd::prelude::*;
use crate::logbuf::LogFilter;
use crate::rows::{first_track_row, is_track_row, next_track_row, prev_track_row, Row, RowView};
use crate::types::PlaybackState;

verus! {

/// Status refresh interval while the transport moves, in milliseconds.
pub const STATUS_POLL_ACTIVE_MS: u64 = 500;

/// Status refresh interval while stopped or paused, in milliseconds.
pub const STATUS_POLL_IDLE_MS: u64 = 1500;

/// Keyboard poll timeout, in milliseconds.
pub const EVENT_POLL_TIMEOUT_MS: u64 = 250;

/// How often the status is refreshed: faster while playing, fast-forwarding
/// or rewinding.
pub fn poll_interval_ms(state: Option<PlaybackState>) -> (ms: u64)
    ensures
        ms == (match state {
            Some(PlaybackState::Playing) | Some(PlaybackState::FastForward) | Some(PlaybackState::Rewind) => 500u64,
            _ => 1500u64,
        }),
{
    match state {
        Some(PlaybackState::Playing) | Some(PlaybackState::FastForward) | Some(PlaybackState::Rewind) => {
            STATUS_POLL_ACTIVE_MS
        },
        _ => STATUS_POLL_IDLE_MS,
    }
}

/// Elapsed and total seconds of the playing track: from the status time
/// (minutes counted from the start, seconds) and the track length
/// `[h, m, s, f]`, frames left out.
pub fn now_playing_seconds(minute: u32, second: u32, length: &[u32; 4]) -> (r: (u32, u32))
    requires
        minute * 60 + second <= u32::MAX,
        (length@[0] * 60 + length@[1]) * 60 + length@[2] <= u32::MAX,
    ensures
        r.0 == minute * 60 + second,
        r.1 == (length@[0] * 60 + length@[1]) * 60 + length@[2],
{
    let elapsed = minute * 60 + second;
    assert(length[0] * 60 + length[1] <= (length@[0] * 60 + length@[1]) * 60) by (nonlinear_arith);
    let total = (length[0] * 60 + length[1]) * 60 + length[2];
    (elapsed, total)
}

/// A key press, as far as the panel tells keys apart.
#[derive(Debug, Clone, Copy, PartialEq, Eq, Structural)]
pub enum Key {
    Char(char),
    Up,
    Down,
    Enter,
    Esc,
    Other,
}

/// What a key press asks of the panel.
#[derive(Debug, Clone, Copy, PartialEq, Eq, Structural)]
pub enum PanelCommand {
    Quit,
    TogglePlayPause,
    Stop,
    Next,
    Previous,
    FastForward,
    Rewind,
    Eject,
    Reload,
    ToggleLogs,
    OpenLevelMenu,
    SelectPrevious,
    SelectNext,
    GotoSelected,
    Nothing,
}

/// The command of a key on the main view (`ctrl` when Control is held).
pub open spec fn key_command_spec(key: Key, ctrl: bool) -> PanelCommand {
    match key {
        Key::Char('q') | Key::Esc => PanelCommand::Quit,
        Key::Char('c') => if ctrl {
            PanelCommand::Quit
        } else {
            PanelCommand::Nothing
        },
        Key::Char(' ') => PanelCommand::TogglePlayPause,
        Key::Char('s') => PanelCommand::Stop,
        Key::Char('n') => PanelCommand::Next,
        Key::Char('p') => PanelCommand::Previous,
        Key::Char('f') => PanelCommand::FastForward,
        Key::Char('b') => PanelCommand::Rewind,
        Key::Char('e') => PanelCommand::Eject,
        Key::Char('R') => PanelCommand::Reload,
        Key::Char('t') => PanelCommand::ToggleLogs,
        Key::Char('l') => PanelCommand::OpenLevelMenu,
        Key::Up | Key::Char('k') => PanelCommand::SelectPrevious,
        Key::Down | Key::Char('j') => PanelCommand::SelectNext,
        Key::Enter => PanelCommand::GotoSelected,
        _ => PanelCommand::Nothing,
    }
}

/// The command of a key on the main view (see [`key_command_spec`]).
pub fn key_command(key: Key, ctrl: bool) -> (c: PanelCommand)
    ensures
        c == key_command_spec(key, ctrl),
{
    match key {
        Key::Char('q') | Key::Esc => PanelCommand::Quit,
        Key::Char('c') => {
            if ctrl {
                PanelCommand::Quit
            } else {
                PanelCommand::Nothing
            }
        },
        Key::Char(' ') => PanelCommand::TogglePlayPause,
        Key::Char('s') => PanelCommand::Stop,
        Key::Char('n') => PanelCommand::Next,
        Key::Char('p') => PanelCommand::Previous,
        Key::Char('f') => PanelCommand::FastForward,
        Key::Char('b') => PanelCommand::Rewind,
        Key::Char('e') => PanelCommand::Eject,
        Key::Char('R') => PanelCommand::Reload,
        Key::Char('t') => PanelCommand::ToggleLogs,
        Key::Char('l') => PanelCommand::OpenLevelMenu,
        Key::Up | Key::Char('k') => PanelCommand::SelectPrevious,
        Key::Down | Key::Char('j') => PanelCommand::SelectNext,
        Key::Enter => PanelCommand::GotoSelected,
        _ => PanelCommand::Nothing,
    }
}

/// The log levels of the level menu, in display order.
pub open spec fn level_choices_spec() -> Seq<LogFilter> {
    seq![LogFilter::Off, LogFilter::Error, LogFilter::Warn, LogFilter::Info, LogFilter::Debug, LogFilter::Trace]
}

/// The log levels of the level menu, in display order.
pub fn level_choices() -> (v: Vec<LogFilter>)
    ensures
        v@ == level_choices_spec(),
{
    let v = vec![LogFilter::Off, LogFilter::Error, LogFilter::Warn, LogFilter::Info, LogFilter::Debug, LogFilter::Trace];
    assert(v@ =~= level_choices_spec());
    v
}

/// The menu entry preselected for the current level (every level is listed).
pub fn level_choice_index(current: LogFilter) -> (i: usize)
    ensures
        i < 6,
        level_choices_spec()[i as int] == current,
{
    match current {
        LogFilter::Off => 0,
        LogFilter::Error => 1,
        LogFilter::Warn => 2,
        LogFilter::Info => 3,
        LogFilter::Debug => 4,
        LogFilter::Trace => 5,
    }
}

/// What a key does in the open level menu.
#[derive(Debug, Clone, Copy, PartialEq, Eq, Structural)]
pub enum MenuStep {
    /// Close the menu without a change.
    Close,
    /// Move the highlight to this entry.
    Highlight(usize),
    /// Set the level of this entry and close the menu.
    Choose(usize),
    /// Nothing happens.
    Stay,
}

/// The level menu's answer to a key, with entry `selected` highlighted
/// (`None` reads as the first entry): Escape or `q` close it, Up or `k`
/// and Down or `j` move the highlight within the six entries, Enter chooses.
pub fn menu_key(key: Key, selected: Option<usize>) -> (s: MenuStep)
    requires
        selected matches Some(i) ==> i < 6,
    ensures
        ({
            let i = match selected {
                Some(i) => i as int,
                None => 0int,
            };
            match key {
                Key::Esc | Key::Char('q') => s == MenuStep::Close,
                Key::Up | Key::Char('k') => s == MenuStep::Highlight(if i == 0 { 0usize } else { (i - 1) as usize }),
                Key::Down | Key::Char('j') => s == MenuStep::Highlight(if i + 1 < 6 { (i + 1) as usize } else { 5usize }),
                Key::Enter => s == MenuStep::Choose(i as usize),
                _ => s == MenuStep::Stay,
            }
        }),
{
    let i = match selected {
        Some(i) => i,
        None => 0,
    };
    match key {
        Key::Esc | Key::Char('q') => MenuStep::Close,
        Key::Up | Key::Char('k') => MenuStep::Highlight(if i == 0 {
            0
        } else {
            i - 1
        }),
        Key::Down | Key::Char('j') => MenuStep::Highlight(if i + 1 < 6 {
            i + 1
        } else {
            5
        }),
        Key::Enter => MenuStep::Choose(i),
        _ => MenuStep::Stay,
    }
}

/// The disc track of the selected row, when a track row is selected.
pub fn selected_track(rows: &[Row], selected: Option<usize>) -> (t: Option<u16>)
    ensures
        match selected {
            Some(i) if i < rows@.len() => match rows@[i as int].view() {
                RowView::Track(k) => t == Some(k),
                RowView::Group(_) => t is None,
            },
            _ => t is None,
        },
{
    match selected {
        Some(i) => {
            if i < rows.len() {
                match &rows[i] {
                    Row::Track(k) => Some(*k),
                    Row::Group(_) => None,
                }
            } else {
                None
            }
        },
        None => None,
    }
}

/// The selection after the rows changed: kept when it is on a track row,
/// else moved to the first track row.
pub fn clamp_selection(rows: &[Row], selected: Option<usize>) -> (r: Option<usize>)
    ensures
        match selected {
            Some(i) if i < rows@.len() && is_track_row(rows@[i as int].view()) => r == Some(i),
            _ => match r {
                Some(j) => j < rows@.len() && is_track_row(rows@[j as int].view()) && forall|k: int|
                    0 <= k < j ==> !is_track_row(#[trigger] rows@[k].view()),
                None => forall|k: int| 0 <= k < rows@.len() ==> !is_track_row(#[trigger] rows@[k].view()),
            },
        },
{
    if let Some(i) = selected {
        if i < rows.len() {
            if let Row::Track(_) = &rows[i] {
                return Some(i);
            }
        }
    }
    first_track_row(rows)
}

/// Moving the selection up: to the nearest track row above, staying put at
/// the top; without a selection, to the first track row.
pub fn select_previous(rows: &[Row], selected: Option<usize>) -> (r: Option<usize>)
    requires
        selected matches Some(i) ==> i <= rows@.len(),
    ensures
        match selected {
            None => r == first_track_row_spec(rows@),
            Some(c) => match prev_track_row_spec(rows@, c as int) {
                Some(j) => r == Some(j as usize),
                None => r == Some(c),
            },
        },
{
    match selected {
        None => {
            let r = first_track_row(rows);
            proof {
                match r {
                    Some(j) => lemma_track_row_from(rows@, 0, j as int),
                    None => lemma_track_row_from_none(rows@, 0),
                }
            }
            r
        },
        Some(c) => {
            let p = prev_track_row(rows, c);
            proof {
                match p {
                    Some(j) => lemma_track_row_before(rows@, c as int, j as int),
                    None => lemma_track_row_before_none(rows@, c as int),
                }
            }
            match p {
                Some(j) => Some(j),
                None => Some(c),
            }
        },
    }
}

/// Moving the selection down: to the nearest track row below, staying put
/// at the bottom; without a selection, to the first track row.
pub fn select_next(rows: &[Row], selected: Option<usize>) -> (r: Option<usize>)
    ensures
        match selected {
            None => r == first_track_row_spec(rows@),
            Some(c) => match next_track_row_spec(rows@, c as int) {
                Some(j) => r == Some(j as usize),
                None => r == Some(c),
            },
        },
{
    match selected {
        None => {
            let r = first_track_row(rows);
            proof {
                match r {
                    Some(j) => lemma_track_row_from(rows@, 0, j as int),
                    None => lemma_track_row_from_none(rows@, 0),
                }
            }
            r
        },
        Some(c) => {
            let p = next_track_row(rows, c);
            proof {
                if c + 1 < rows@.len() {
                    match p {
                        Some(j) => lemma_track_row_from(rows@, c + 1, j as int),
                        None => lemma_track_row_from_none(rows@, c + 1),
                    }
                }
            }
            match p {
                Some(j) => Some(j),
                None => Some(c),
            }
        },
    }
}

/// The first track row at or after `k`.
pub open spec fn track_row_from(rows: Seq<Row>, k: int) -> Option<int>
    decreases rows.len() - k,
{
    if k < 0 || k >= rows.len() {
        None
    } else if is_track_row(rows[k].view()) {
        Some(k)
    } else {
        track_row_from(rows, k + 1)
    }
}

/// The last track row before `k`.
pub open spec fn track_row_before(rows: Seq<Row>, k: int) -> Option<int>
    decreases k,
{
    if k <= 0 || k > rows.len() {
        None
    } else if is_track_row(rows[k - 1].view()) {
        Some(k - 1)
    } else {
        track_row_before(rows, k - 1)
    }
}

/// The first track row.
pub open spec fn first_track_row_spec(rows: Seq<Row>) -> Option<usize> {
    match track_row_from(rows, 0) {
        Some(j) => Some(j as usize),
        None => None,
    }
}

/// The nearest track row after `c`.
pub open spec fn next_track_row_spec(rows: Seq<Row>, c: int) -> Option<int> {
    if c + 1 >= rows.len() {
        None
    } else {
        track_row_from(rows, c + 1)
    }
}

/// The nearest track row before `c`.
pub open spec fn prev_track_row_spec(rows: Seq<Row>, c: int) -> Option<int> {
    track_row_before(rows, c)
}


proof fn lemma_track_row_from(rows: Seq<Row>, k: int, j: int)
    requires
        0 <= k <= j < rows.len(),
        is_track_row(rows[j].view()),
        forall|m: int| k <= m < j ==> !is_track_row(#[trigger] rows[m].view()),
    ensures
        track_row_from(rows, k) == Some(j),
    decreases j - k,
{
    if k < j {
        lemma_track_row_from(rows, k + 1, j);
    }
}

proof fn lemma_track_row_from_none(rows: Seq<Row>, k: int)
    requires
        0 <= k,
        forall|m: int| k <= m < rows.len() ==> !is_track_row(#[trigger] rows[m].view()),
    ensures
        track_row_from(rows, k) is None,
    decreases rows.len() - k,
{
    if k < rows.len() {
        lemma_track_row_from_none(rows, k + 1);
    }
}

proof fn lemma_track_row_before(rows: Seq<Row>, k: int, j: int)
    requires
        0 <= j < k <= rows.len(),
        is_track_row(rows[j].view()),
        forall|m: int| j < m < k ==> !is_track_row(#[trigger] rows[m].view()),
    ensures
        track_row_before(rows, k) == Some(j),
    decreases k - j,
{
    if j < k - 1 {
        lemma_track_row_before(rows, k - 1, j);
    }
}

proof fn lemma_track_row_before_none(rows: Seq<Row>, k: int)
    requires
        k <= rows.len(),
        forall|m: int| 0 <= m < k ==> !is_track_row(#[trigger] rows[m].view()),
    ensures
        track_row_before(rows, k) is None,
    decreases k,
{
    if k > 0 {
        lemma_track_row_before_none(rows, k - 1);
    }
}

} // verus!
