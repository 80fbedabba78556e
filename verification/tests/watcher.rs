use rust_engine::scanner::RelevanceFilter;
use rust_engine::watcher::{event_is_relevant, step, WatchAction, WatchInput, WatchState, DEBOUNCE_MS};

#[test]
fn burst_with_a_relevant_change_reanalyzes_once() {
    let mut state = WatchState::Idle;
    let mut actions = Vec::new();
    for input in [
        WatchInput::Changed { relevant: false },
        WatchInput::Changed { relevant: true },
        WatchInput::Changed { relevant: false },
        WatchInput::Quiet,
    ] {
        let (next, action) = step(state, input);
        state = next;
        actions.push(action);
    }
    assert_eq!(state, WatchState::Idle);
    assert_eq!(
        actions,
        vec![
            WatchAction::AwaitQuiet { millis: DEBOUNCE_MS },
            WatchAction::AwaitQuiet { millis: DEBOUNCE_MS },
            WatchAction::AwaitQuiet { millis: DEBOUNCE_MS },
            WatchAction::Reanalyze,
        ]
    );
}

#[test]
fn burst_of_irrelevant_changes_does_not_reanalyze() {
    let (s, a) = step(WatchState::Idle, WatchInput::Changed { relevant: false });
    assert_eq!(a, WatchAction::AwaitQuiet { millis: 300 });
    let (s, a) = step(s, WatchInput::Quiet);
    assert_eq!(s, WatchState::Idle);
    assert_eq!(a, WatchAction::AwaitChange);
}

#[test]
fn closing_the_event_source_stops_the_watch() {
    assert_eq!(step(WatchState::Idle, WatchInput::Closed), (WatchState::Idle, WatchAction::Stop));
    assert_eq!(
        step(WatchState::Burst { relevant: true }, WatchInput::Closed),
        (WatchState::Idle, WatchAction::Reanalyze)
    );
}

#[test]
fn events_are_relevant_when_some_path_is() {
    let filter = RelevanceFilter::for_root("/w", Some("out_dir/\n"));
    let paths = vec!["/w/readme.md".to_string(), "/w/src/a.py".to_string()];
    assert!(event_is_relevant(Some(&paths), &filter));
    let paths = vec!["/w/readme.md".to_string(), "/w/out_dir/a.py".to_string()];
    assert!(!event_is_relevant(Some(&paths), &filter));
    assert!(!event_is_relevant(None, &filter));
    assert!(!event_is_relevant(Some(&Vec::new()), &filter));
}
