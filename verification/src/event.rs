//! Events and the decisions of the control loop.
//!
//! Two producers feed the loop: the keyboard and a timer. The loop hands
//! each event to [`Events::dispatch`], which changes the dashboard state as
//! the event asks and says what the loop has to do outside of it.

use crate::app::{App, AppView};
use crate::process::{next_index, previous_index, selected};
use vstd::prelude::*;

verus! {

/// A key, as far as the dashboard tells keys apart.
#[derive(Debug, Clone, Copy, PartialEq, Eq, Hash, Structural)]
pub enum Key {
    Char(char),
    Up,
    Down,
    /// Any key that has no meaning here.
    Other,
}

/// What the control loop waits for.
#[derive(Debug, Clone, Copy, PartialEq, Eq, Hash, Structural)]
pub enum Event {
    Input(Key),
    Tick,
}

/// What the control loop has to do after an event was dispatched.
#[derive(Debug, Clone, Copy, PartialEq, Eq, Hash, Structural)]
pub enum Action {
    /// Nothing beyond drawing the state.
    Idle,
    /// Read the host and hand the reading to `App::refresh`.
    Refresh,
    /// Ask the host to terminate the process with this pid.
    Terminate(i32),
}

/// How the producers are set up.
#[derive(Debug, Clone, Copy, PartialEq, Eq, Structural)]
pub struct Config {
    pub exit_key: Key,
    /// Milliseconds between two ticks.
    pub tick_rate: u64,
}

impl Default for Config {
    /// `q` to leave, four ticks a second.
    fn default() -> (config: Config)
        ensures
            config == (Config { exit_key: Key::Char('q'), tick_rate: 250 }),
    {
        Config { exit_key: Key::Char('q'), tick_rate: 250 }
    }
}

/// The key that kills the selected process when pressed twice in a row.
pub open spec fn kill_key() -> Key {
    Key::Char('d')
}

/// The event that stands for "no key yet": a key without a meaning.
pub open spec fn no_event() -> Event {
    Event::Input(Key::Char('m'))
}

/// Whether `key` confirms a kill: it is the kill key, and the key before it
/// was the kill key as well.
pub open spec fn confirms_kill(last_event: Event, key: Key) -> bool {
    key == kill_key() && last_event == Event::Input(kill_key())
}

/// The dashboard state after a key: `q` and `Q` ask to quit, `Up` and `j`
/// move the cursor towards the end of the process list, `Down` and `k`
/// towards its start, and every other key leaves the state as it is.
pub open spec fn after_key(app: AppView, key: Key) -> AppView {
    match key {
        Key::Char(c) => if c == 'q' || c == 'Q' {
            AppView { should_quit: true, ..app }
        } else if c == 'j' {
            AppView { active_index: next_index(app.active_index, app.process_list.len()), ..app }
        } else if c == 'k' {
            AppView { active_index: previous_index(app.active_index), ..app }
        } else {
            app
        },
        Key::Up => AppView {
            active_index: next_index(app.active_index, app.process_list.len()),
            ..app
        },
        Key::Down => AppView { active_index: previous_index(app.active_index), ..app },
        Key::Other => app,
    }
}

/// What a key asks of the host: the termination of the selected process
/// where the key confirms a kill and the cursor points into the list,
/// nothing otherwise.
pub open spec fn key_request(last_event: Event, key: Key, app: AppView) -> Option<i32> {
    if confirms_kill(last_event, key) {
        selected(app.process_list, app.active_index)
    } else {
        None
    }
}

/// The number of kills that a run of keys confirms, when `last_event` came
/// before the first of them.
pub open spec fn confirmed_kills(last_event: Event, keys: Seq<Key>) -> nat
    decreases keys.len(),
{
    if keys.len() == 0 {
        0
    } else {
        let rest = confirmed_kills(Event::Input(keys[0]), keys.drop_first());
        if confirms_kill(last_event, keys[0]) {
            rest + 1
        } else {
            rest
        }
    }
}

/// The memory of the control loop: the last key it saw.
#[derive(Debug)]
pub struct Events {
    pub last_event: Event,
}

impl Events {
    /// The memory of a loop that has seen no key yet.
    pub fn new() -> (events: Events)
        ensures
            events.last_event == no_event(),
    {
        Events { last_event: Event::Input(Key::Char('m')) }
    }

    /// Forgets the last key.
    pub fn reset_last_event(&mut self)
        ensures
            final(self).last_event == no_event(),
    {
        self.last_event = Event::Input(Key::Char('m'));
    }

    /// Handles one key: changes the dashboard state as the key asks, returns
    /// the process to terminate where the key confirms a kill, and remembers
    /// the key. No reading of the host is taken.
    pub fn on_key(&mut self, key: &Key, app: &mut App) -> (request: Option<i32>)
        requires
            old(app).wf(),
        ensures
            final(app).wf(),
            final(app)@ == after_key(old(app)@, *key),
            request == key_request(old(self).last_event, *key, old(app)@),
            final(self).last_event == Event::Input(*key),
    {
        let mut request: Option<i32> = None;
        match *key {
            Key::Char(c) => {
                if c == 'q' || c == 'Q' {
                    app.quit();
                } else if c == 'j' {
                    app.increase_index();
                } else if c == 'k' {
                    app.decrease_index();
                } else if c == 'd' {
                    if self.last_event == Event::Input(Key::Char('d')) {
                        request = app.kill();
                    }
                }
            },
            Key::Up => {
                app.increase_index();
            },
            Key::Down => {
                app.decrease_index();
            },
            Key::Other => {},
        }
        self.last_event = Event::Input(*key);
        request
    }

    /// Handles one event and says what the loop has to do next. A tick asks
    /// for a reading of the host and leaves everything as it is; a key is
    /// handled by [`Events::on_key`].
    pub fn dispatch(&mut self, event: &Event, app: &mut App) -> (action: Action)
        requires
            old(app).wf(),
        ensures
            final(app).wf(),
            match *event {
                Event::Tick => {
                    &&& action == Action::Refresh
                    &&& final(app)@ == old(app)@
                    &&& final(self).last_event == old(self).last_event
                },
                Event::Input(key) => {
                    &&& final(app)@ == after_key(old(app)@, key)
                    &&& final(self).last_event == Event::Input(key)
                    &&& action == match key_request(old(self).last_event, key, old(app)@) {
                        Some(pid) => Action::Terminate(pid),
                        None => Action::Idle,
                    }
                },
            },
    {
        match *event {
            Event::Tick => Action::Refresh,
            Event::Input(key) => {
                match self.on_key(&key, app) {
                    Some(pid) => Action::Terminate(pid),
                    None => Action::Idle,
                }
            },
        }
    }
}

/// The kill key pressed twice in a row, with no kill key right before,
/// confirms exactly one kill.
pub proof fn lemma_double_kill_confirms_once(last_event: Event)
    requires
        last_event != Event::Input(kill_key()),
    ensures
        confirmed_kills(last_event, seq![kill_key(), kill_key()]) == 1,
{
    let keys = seq![kill_key(), kill_key()];
    assert(keys.drop_first() =~= seq![kill_key()]);
    assert(keys.drop_first().drop_first() =~= Seq::<Key>::empty());
    reveal_with_fuel(confirmed_kills, 3);
}

/// Another key between two presses of the kill key disarms it: no kill is
/// confirmed.
pub proof fn lemma_interrupted_kill_confirms_none(last_event: Event, other: Key)
    requires
        last_event != Event::Input(kill_key()),
        other != kill_key(),
    ensures
        confirmed_kills(last_event, seq![kill_key(), other, kill_key()]) == 0,
{
    let keys = seq![kill_key(), other, kill_key()];
    assert(keys.drop_first() =~= seq![other, kill_key()]);
    assert(keys.drop_first().drop_first() =~= seq![kill_key()]);
    assert(keys.drop_first().drop_first().drop_first() =~= Seq::<Key>::empty());
    reveal_with_fuel(confirmed_kills, 4);
}

/// A single press of the kill key confirms nothing, whatever came before
/// that was not the kill key.
pub proof fn lemma_single_kill_confirms_none(last_event: Event)
    requires
        last_event != Event::Input(kill_key()),
    ensures
        confirmed_kills(last_event, seq![kill_key()]) == 0,
{
    assert(seq![kill_key()].drop_first() =~= Seq::<Key>::empty());
    reveal_with_fuel(confirmed_kills, 2);
}

} // verus!
