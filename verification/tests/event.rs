use rstop::app::{App, Reading};
use rstop::event::{Action, Config, Event, Events, Key};
use rstop::process::ProcessRecord;

fn record(pid: i32) -> ProcessRecord {
    ProcessRecord { pid, name: format!("p{}", pid), cpu_percent: 0, bytes_written: pid as u64 }
}

fn app_with(pids: &[i32]) -> App {
    let mut a = match App::new("rstop", 5, 1) {
        Ok(a) => a,
        Err(e) => panic!("{:?}", e),
    };
    a.refresh(Reading {
        processors: None,
        memory: None,
        swap: None,
        disks: None,
        networks: None,
        components: None,
        processes: Some(pids.iter().map(|p| record(*p)).collect()),
    });
    a
}

fn terminations(events: &mut Events, app: &mut App, keys: &[Key]) -> Vec<i32> {
    let mut out = vec![];
    for k in keys {
        if let Some(pid) = events.on_key(k, app) {
            out.push(pid);
        }
    }
    out
}

#[test]
fn default_config() {
    let c = Config::default();
    assert_eq!(c.exit_key, Key::Char('q'));
    assert_eq!(c.tick_rate, 250);
}

#[test]
fn fresh_events_have_seen_no_key() {
    let e = Events::new();
    assert_eq!(e.last_event, Event::Input(Key::Char('m')));
}

#[test]
fn reset_forgets_the_last_key() {
    let mut e = Events::new();
    let mut a = app_with(&[1]);
    e.on_key(&Key::Char('d'), &mut a);
    assert_eq!(e.last_event, Event::Input(Key::Char('d')));
    e.reset_last_event();
    assert_eq!(e.last_event, Event::Input(Key::Char('m')));
    assert_eq!(e.on_key(&Key::Char('d'), &mut a), None);
}

#[test]
fn kill_twice_terminates_once() {
    let mut e = Events::new();
    let mut a = app_with(&[7, 8]);
    let done = terminations(&mut e, &mut a, &[Key::Char('d'), Key::Char('d')]);
    assert_eq!(done, vec![7]);
}

#[test]
fn kill_interrupted_terminates_nothing() {
    for other in [Key::Char('x'), Key::Up, Key::Down, Key::Other, Key::Char('j'), Key::Char('D')] {
        let mut e = Events::new();
        let mut a = app_with(&[7, 8]);
        let done = terminations(&mut e, &mut a, &[Key::Char('d'), other, Key::Char('d')]);
        assert_eq!(done, Vec::<i32>::new());
    }
}

#[test]
fn single_kill_terminates_nothing() {
    let mut e = Events::new();
    let mut a = app_with(&[7]);
    assert_eq!(e.on_key(&Key::Char('d'), &mut a), None);
    assert_eq!(e.last_event, Event::Input(Key::Char('d')));
}

#[test]
fn tick_between_kills_does_not_disarm() {
    let mut e = Events::new();
    let mut a = app_with(&[7]);
    assert_eq!(e.dispatch(&Event::Input(Key::Char('d')), &mut a), Action::Idle);
    assert_eq!(e.dispatch(&Event::Tick, &mut a), Action::Refresh);
    assert_eq!(e.dispatch(&Event::Input(Key::Char('d')), &mut a), Action::Terminate(7));
}

#[test]
fn confirmed_kill_with_stale_cursor_asks_nothing() {
    let mut e = Events::new();
    let mut a = app_with(&[]);
    let done = terminations(&mut e, &mut a, &[Key::Char('d'), Key::Char('d')]);
    assert_eq!(done, Vec::<i32>::new());
    assert_eq!(e.dispatch(&Event::Input(Key::Char('d')), &mut a), Action::Idle);
}

#[test]
fn kill_targets_the_selected_process() {
    let mut e = Events::new();
    let mut a = app_with(&[7, 8, 9]);
    let done = terminations(
        &mut e,
        &mut a,
        &[Key::Char('j'), Key::Char('j'), Key::Char('d'), Key::Char('d')],
    );
    assert_eq!(done, vec![9]);
}

#[test]
fn quit_keys_set_the_flag() {
    for k in [Key::Char('q'), Key::Char('Q')] {
        let mut e = Events::new();
        let mut a = app_with(&[1]);
        assert_eq!(e.on_key(&k, &mut a), None);
        assert!(a.should_quit());
        assert_eq!(e.last_event, Event::Input(k));
    }
}

#[test]
fn movement_keys_move_the_cursor() {
    let mut e = Events::new();
    let mut a = app_with(&[1, 2, 3]);
    e.on_key(&Key::Up, &mut a);
    assert_eq!(a.process().active_index, 1);
    e.on_key(&Key::Char('j'), &mut a);
    assert_eq!(a.process().active_index, 2);
    e.on_key(&Key::Down, &mut a);
    assert_eq!(a.process().active_index, 1);
    e.on_key(&Key::Char('k'), &mut a);
    assert_eq!(a.process().active_index, 1);
    e.on_key(&Key::Char('j'), &mut a);
    e.on_key(&Key::Char('k'), &mut a);
    assert_eq!(a.process().active_index, 1);
    assert!(!a.should_quit());
}

#[test]
fn movement_keys_stop_on_the_last_record() {
    let mut e = Events::new();
    let mut a = app_with(&[1, 2, 3]);
    for k in [Key::Up, Key::Char('j'), Key::Up, Key::Char('j')] {
        e.on_key(&k, &mut a);
    }
    assert_eq!(a.process().active_index, 2);
    assert_eq!(a.kill(), Some(3));
}

#[test]
fn other_keys_are_ignored() {
    let mut e = Events::new();
    let mut a = app_with(&[1, 2]);
    for k in [Key::Other, Key::Char('x'), Key::Char('m'), Key::Char('J')] {
        assert_eq!(e.on_key(&k, &mut a), None);
        assert_eq!(a.process().active_index, 0);
        assert!(!a.should_quit());
        assert_eq!(e.last_event, Event::Input(k));
    }
}

#[test]
fn tick_asks_for_a_refresh_and_changes_nothing() {
    let mut e = Events::new();
    let mut a = app_with(&[1, 2]);
    a.increase_index();
    assert_eq!(e.dispatch(&Event::Tick, &mut a), Action::Refresh);
    assert_eq!(a.process().active_index, 1);
    assert_eq!(a.process().process_list.len(), 2);
    assert!(!a.should_quit());
    assert_eq!(e.last_event, Event::Input(Key::Char('m')));
}

#[test]
fn input_does_not_ask_for_a_refresh() {
    let mut e = Events::new();
    let mut a = app_with(&[1, 2]);
    for k in [Key::Up, Key::Down, Key::Char('q'), Key::Char('d'), Key::Other] {
        assert_ne!(e.dispatch(&Event::Input(k), &mut a), Action::Refresh);
    }
}
