use stack_state_machine::{State, StateMachine, StateTransition};

type Log = Vec<String>;

/// A state that writes every call it gets to the log, and answers its updates
/// from a script, last entry first. With the script used up it stays.
struct Scripted {
    name: &'static str,
    script: Vec<StateTransition<Scripted>>,
}

fn named(name: &'static str) -> Box<Scripted> {
    Box::new(Scripted { name, script: Vec::new() })
}

fn scripted(name: &'static str, script: Vec<StateTransition<Scripted>>) -> Box<Scripted> {
    Box::new(Scripted { name, script })
}

impl State<Log> for Scripted {
    fn on_start(&mut self, log: &mut Log) {
        log.push(format!("{}.start", self.name));
    }

    fn on_stop(&mut self, log: &mut Log) {
        log.push(format!("{}.stop", self.name));
    }

    fn on_pause(&mut self, log: &mut Log) {
        log.push(format!("{}.pause", self.name));
    }

    fn on_resume(&mut self, log: &mut Log) {
        log.push(format!("{}.resume", self.name));
    }

    fn update(&mut self, log: &mut Log) -> StateTransition<Scripted> {
        log.push(format!("{}.update", self.name));
        self.script.pop().unwrap_or(StateTransition::Stay)
    }
}

fn machine_with(names: &[&'static str], log: &mut Log) -> StateMachine<Log, Scripted> {
    let mut sm = StateMachine::<Log, Scripted>::default();
    for name in names {
        sm.push(named(name), log);
    }
    log.clear();
    sm
}

/// Stops the machine and gives the names of the states it held, from the top
/// down.
fn drain(mut sm: StateMachine<Log, Scripted>) -> Vec<String> {
    let mut log = Log::new();
    sm.stop(&mut log);
    assert!(!sm.is_running());
    log
}

#[test]
fn fresh_machine_is_not_running() {
    let sm = StateMachine::<Log, Scripted>::default();
    assert!(!sm.is_running());
}

#[test]
fn is_running_follows_the_stack() {
    let mut log = Log::new();
    let mut sm = StateMachine::<Log, Scripted>::default();
    sm.push(named("a"), &mut log);
    assert!(sm.is_running());
    sm.push(named("b"), &mut log);
    assert!(sm.is_running());
    sm.transition(StateTransition::Pop, &mut log);
    assert!(sm.is_running());
    sm.transition(StateTransition::Pop, &mut log);
    assert!(!sm.is_running());
}

#[test]
fn push_on_empty_machine_only_starts() {
    let mut log = Log::new();
    let mut sm = StateMachine::<Log, Scripted>::default();
    sm.push(named("a"), &mut log);
    assert_eq!(log, vec!["a.start"]);
    assert!(sm.is_running());
    assert_eq!(drain(sm), vec!["a.stop"]);
}

#[test]
fn push_pauses_then_starts() {
    let mut log = Log::new();
    let mut sm = machine_with(&["a"], &mut log);
    sm.push(named("b"), &mut log);
    assert_eq!(log, vec!["a.pause", "b.start"]);
    assert_eq!(drain(sm), vec!["b.stop", "a.stop"]);
}

#[test]
fn push_touches_only_the_old_top() {
    let mut log = Log::new();
    let mut sm = machine_with(&["a", "b", "c"], &mut log);
    sm.push(named("d"), &mut log);
    assert_eq!(log, vec!["c.pause", "d.start"]);
    assert_eq!(drain(sm), vec!["d.stop", "c.stop", "b.stop", "a.stop"]);
}

#[test]
fn pop_stops_then_resumes() {
    let mut log = Log::new();
    let mut sm = machine_with(&["a", "b"], &mut log);
    sm.transition(StateTransition::Pop, &mut log);
    assert_eq!(log, vec!["b.stop", "a.resume"]);
    assert!(sm.is_running());
    assert_eq!(drain(sm), vec!["a.stop"]);
}

#[test]
fn pop_resumes_only_the_new_top() {
    let mut log = Log::new();
    let mut sm = machine_with(&["a", "b", "c"], &mut log);
    sm.transition(StateTransition::Pop, &mut log);
    assert_eq!(log, vec!["c.stop", "b.resume"]);
    assert_eq!(drain(sm), vec!["b.stop", "a.stop"]);
}

#[test]
fn pop_of_last_state_stops_the_machine() {
    let mut log = Log::new();
    let mut sm = machine_with(&["a"], &mut log);
    sm.transition(StateTransition::Pop, &mut log);
    assert_eq!(log, vec!["a.stop"]);
    assert!(!sm.is_running());
}

#[test]
fn pop_on_empty_machine_does_nothing() {
    let mut log = Log::new();
    let mut sm = StateMachine::<Log, Scripted>::default();
    sm.transition(StateTransition::Pop, &mut log);
    assert!(log.is_empty());
    assert!(!sm.is_running());
}

#[test]
fn stop_runs_on_stop_from_the_top_down() {
    let mut log = Log::new();
    let mut sm = machine_with(&["a", "b", "c"], &mut log);
    sm.stop(&mut log);
    assert_eq!(log, vec!["c.stop", "b.stop", "a.stop"]);
    assert!(!sm.is_running());
}

#[test]
fn stop_on_empty_machine_does_nothing() {
    let mut log = Log::new();
    let mut sm = StateMachine::<Log, Scripted>::default();
    sm.stop(&mut log);
    assert!(log.is_empty());
    assert!(!sm.is_running());
}

#[test]
fn stop_twice_stops_each_state_once() {
    let mut log = Log::new();
    let mut sm = machine_with(&["a", "b"], &mut log);
    sm.stop(&mut log);
    sm.stop(&mut log);
    assert_eq!(log, vec!["b.stop", "a.stop"]);
}

#[test]
fn update_on_stopped_machine_does_nothing() {
    let mut log = Log::new();
    let mut sm = StateMachine::<Log, Scripted>::default();
    sm.update(&mut log);
    assert!(log.is_empty());
    assert!(!sm.is_running());

    let mut sm = machine_with(&["a"], &mut log);
    sm.stop(&mut log);
    log.clear();
    sm.update(&mut log);
    sm.update(&mut log);
    assert!(log.is_empty());
    assert!(!sm.is_running());
}

#[test]
fn stay_leaves_the_stack_alone() {
    let mut log = Log::new();
    let mut sm = machine_with(&["a", "b"], &mut log);
    sm.transition(StateTransition::Stay, &mut log);
    assert!(log.is_empty());
    assert!(sm.is_running());
    assert_eq!(drain(sm), vec!["b.stop", "a.stop"]);

    let mut sm = StateMachine::<Log, Scripted>::default();
    sm.transition(StateTransition::Stay, &mut log);
    assert!(log.is_empty());
    assert!(!sm.is_running());
}

#[test]
fn switch_replaces_only_the_top() {
    let mut log = Log::new();
    let mut sm = machine_with(&["a", "b"], &mut log);
    sm.transition(StateTransition::Switch(named("c")), &mut log);
    assert_eq!(log, vec!["b.stop", "c.start"]);
    assert_eq!(drain(sm), vec!["c.stop", "a.stop"]);
}

#[test]
fn switch_on_empty_machine_is_a_push() {
    let mut log = Log::new();
    let mut sm = StateMachine::<Log, Scripted>::default();
    sm.transition(StateTransition::Switch(named("a")), &mut log);
    assert_eq!(log, vec!["a.start"]);
    assert!(sm.is_running());
    assert_eq!(drain(sm), vec!["a.stop"]);
}

#[test]
fn switch_of_only_state_keeps_the_machine_running() {
    let mut log = Log::new();
    let mut sm = machine_with(&["a"], &mut log);
    sm.transition(StateTransition::Switch(named("b")), &mut log);
    assert_eq!(log, vec!["a.stop", "b.start"]);
    assert_eq!(drain(sm), vec!["b.stop"]);
}

#[test]
fn push_transition_is_push() {
    let mut log = Log::new();
    let mut sm = machine_with(&["a"], &mut log);
    sm.transition(StateTransition::Push(named("b")), &mut log);
    assert_eq!(log, vec!["a.pause", "b.start"]);
    assert_eq!(drain(sm), vec!["b.stop", "a.stop"]);
}

#[test]
fn quit_stops_every_state() {
    let mut log = Log::new();
    let mut sm = machine_with(&["a", "b", "c"], &mut log);
    sm.transition(StateTransition::Quit, &mut log);
    assert_eq!(log, vec!["c.stop", "b.stop", "a.stop"]);
    assert!(!sm.is_running());
}

#[test]
fn update_ticks_only_the_top_state() {
    let mut log = Log::new();
    let mut sm = machine_with(&["a", "b"], &mut log);
    sm.update(&mut log);
    sm.update(&mut log);
    assert_eq!(log, vec!["b.update", "b.update"]);
    assert_eq!(drain(sm), vec!["b.stop", "a.stop"]);
}

#[test]
fn update_applies_the_push_it_is_given() {
    let mut log = Log::new();
    let mut sm = StateMachine::<Log, Scripted>::default();
    sm.push(scripted("a", vec![StateTransition::Push(named("b"))]), &mut log);
    log.clear();
    sm.update(&mut log);
    assert_eq!(log, vec!["a.update", "a.pause", "b.start"]);
    log.clear();
    sm.update(&mut log);
    assert_eq!(log, vec!["b.update"]);
    assert_eq!(drain(sm), vec!["b.stop", "a.stop"]);
}

#[test]
fn update_applies_the_pop_it_is_given() {
    let mut log = Log::new();
    let mut sm = machine_with(&["a"], &mut log);
    sm.push(scripted("b", vec![StateTransition::Pop]), &mut log);
    log.clear();
    sm.update(&mut log);
    assert_eq!(log, vec!["b.update", "b.stop", "a.resume"]);
    assert_eq!(drain(sm), vec!["a.stop"]);
}

#[test]
fn update_applies_the_switch_it_is_given() {
    let mut log = Log::new();
    let mut sm = machine_with(&["a"], &mut log);
    sm.push(scripted("b", vec![StateTransition::Switch(named("c"))]), &mut log);
    log.clear();
    sm.update(&mut log);
    assert_eq!(log, vec!["b.update", "b.stop", "c.start"]);
    assert_eq!(drain(sm), vec!["c.stop", "a.stop"]);
}

#[test]
fn update_applies_the_quit_it_is_given() {
    let mut log = Log::new();
    let mut sm = machine_with(&["a", "b"], &mut log);
    sm.push(scripted("c", vec![StateTransition::Quit]), &mut log);
    log.clear();
    sm.update(&mut log);
    assert_eq!(log, vec!["c.update", "c.stop", "b.stop", "a.stop"]);
    assert!(!sm.is_running());
    log.clear();
    sm.update(&mut log);
    assert!(log.is_empty());
}

#[test]
fn update_follows_the_script_in_turn() {
    let mut log = Log::new();
    let mut sm = StateMachine::<Log, Scripted>::default();
    let script = vec![StateTransition::Pop, StateTransition::Stay, StateTransition::Push(named("b"))];
    sm.push(scripted("a", script), &mut log);
    sm.update(&mut log);
    sm.transition(StateTransition::Pop, &mut log);
    sm.update(&mut log);
    sm.update(&mut log);
    assert_eq!(
        log,
        vec![
            "a.start", "a.update", "a.pause", "b.start", "b.stop", "a.resume", "a.update",
            "a.update", "a.stop",
        ]
    );
    assert!(!sm.is_running());
}

#[test]
fn machine_can_be_started_again_after_a_stop() {
    let mut log = Log::new();
    let mut sm = machine_with(&["a"], &mut log);
    sm.stop(&mut log);
    sm.push(named("b"), &mut log);
    assert_eq!(log, vec!["a.stop", "b.start"]);
    assert!(sm.is_running());
}
