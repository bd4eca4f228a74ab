use game_engine::engine::Engine;
use game_engine::event::Event;
use game_engine::eventqueue::EventQueue;
use std::cell::Cell;
use std::rc::Rc;

type Action = Box<dyn Fn()>;
type Queue = Vec<Event<Action>>;

fn idle(name: &str, frames: u32) -> Event<Action> {
    Event { name: name.to_string(), frames, task: Box::new(|| {}) }
}

fn names_and_frames(queue: &Queue) -> Vec<(String, u32)> {
    let mut all: Vec<(String, u32)> = Vec::new();
    for event in queue.iter() {
        all.push((event.name.clone(), event.frames));
    }
    all.sort();
    all
}

fn quiet(_queue: &mut Queue) -> Result<(), String> {
    Ok(())
}

fn failing(_queue: &mut Queue) -> Result<(), String> {
    Err("task went wrong".to_string())
}

#[test]
fn new_engine_has_an_empty_queue() {
    let engine = Engine::new(quiet);
    assert!(engine.event_queue.is_empty());
    assert!(engine.ready());
}

#[test]
fn run_task_hands_back_nothing_on_success() {
    let mut engine = Engine::new(quiet);
    assert_eq!(engine.run_task(), None);
}

#[test]
fn run_task_hands_back_the_failure_message() {
    let mut engine = Engine::new(failing);
    assert_eq!(engine.run_task(), Some("task went wrong".to_string()));
}

#[test]
fn run_task_lets_the_task_change_the_queue() {
    let mut engine = Engine::new(|queue: &mut Queue| {
        queue.push(idle("made by task", 4));
        Ok(())
    });
    assert_eq!(engine.run_task(), None);
    assert_eq!(names_and_frames(&engine.event_queue), vec![("made by task".to_string(), 4)]);
}

#[test]
fn ready_tells_whether_every_event_has_a_frame_left() {
    let mut engine = Engine::new(quiet);
    engine.event_queue.push(idle("a", 1));
    engine.event_queue.push(idle("b", 2));
    assert!(engine.ready());
    engine.event_queue.push(idle("c", 0));
    assert!(!engine.ready());
}

#[test]
fn settle_runs_and_prunes() {
    let calls = Rc::new(Cell::new(0));
    let seen = Rc::clone(&calls);
    let mut engine = Engine::new(quiet);
    engine.event_queue.push(Event {
        name: "counted".to_string(),
        frames: 2,
        task: Box::new(move || seen.set(seen.get() + 1)),
    });
    engine.event_queue.push(idle("short", 1));
    engine.settle();
    assert_eq!(calls.get(), 1);
    assert_eq!(names_and_frames(&engine.event_queue), vec![("counted".to_string(), 1)]);
    engine.settle();
    assert_eq!(calls.get(), 2);
    assert!(engine.event_queue.is_empty());
}

#[test]
fn frame_runs_task_then_events_then_prunes() {
    let turns = Rc::new(Cell::new(0));
    let seen = Rc::clone(&turns);
    let mut engine = Engine::new(move |queue: &mut Queue| {
        seen.set(seen.get() + 1);
        if seen.get() == 1 {
            queue.push(idle("A", 1));
            queue.push(idle("B", 2));
            queue.push(idle("C", 3));
        }
        Ok(())
    });
    assert_eq!(engine.frame(), None);
    assert_eq!(
        names_and_frames(&engine.event_queue),
        vec![("B".to_string(), 1), ("C".to_string(), 2)]
    );
    assert_eq!(engine.frame(), None);
    assert_eq!(names_and_frames(&engine.event_queue), vec![("C".to_string(), 1)]);
    assert_eq!(engine.frame(), None);
    assert!(engine.event_queue.is_empty());
    assert_eq!(turns.get(), 3);
}

#[test]
fn failed_task_does_not_stop_the_frame() {
    let calls = Rc::new(Cell::new(0));
    let seen = Rc::clone(&calls);
    let mut engine = Engine::new(failing);
    engine.event_queue.push(Event {
        name: "still runs".to_string(),
        frames: 2,
        task: Box::new(move || seen.set(seen.get() + 1)),
    });
    assert_eq!(engine.frame(), Some("task went wrong".to_string()));
    assert_eq!(calls.get(), 1);
    assert_eq!(names_and_frames(&engine.event_queue), vec![("still runs".to_string(), 1)]);
    assert_eq!(engine.frame(), Some("task went wrong".to_string()));
    assert_eq!(calls.get(), 2);
    assert!(engine.event_queue.is_empty());
}

#[test]
fn event_enqueued_by_the_task_runs_in_the_same_frame() {
    let calls = Rc::new(Cell::new(0));
    let seen = Rc::clone(&calls);
    let mut engine = Engine::new(move |queue: &mut Queue| {
        let seen = Rc::clone(&seen);
        queue.push(Event {
            name: "fresh".to_string(),
            frames: 1,
            task: Box::new(move || seen.set(seen.get() + 1)),
        });
        Ok(())
    });
    assert_eq!(engine.frame(), None);
    assert_eq!(calls.get(), 1);
    assert!(engine.event_queue.is_empty());
}

#[test]
fn task_can_remove_an_event_by_name() {
    let mut engine = Engine::new(|queue: &mut Queue| {
        EventQueue::remove(queue, "unwanted".to_string());
        Ok(())
    });
    engine.event_queue.push(idle("unwanted", 9));
    engine.event_queue.push(idle("wanted", 9));
    assert_eq!(engine.frame(), None);
    assert_eq!(names_and_frames(&engine.event_queue), vec![("wanted".to_string(), 8)]);
}
