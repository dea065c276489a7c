use orasis_base::canvas::{CanvasStore, VirtualCanvas};
use orasis_base::event::{Event, EventData};
use orasis_base::host::{Delivery, PluginManager, PluginState, RegisterError};
use orasis_base::plugin::ImageEditorPlugin;
use std::cell::RefCell;
use std::rc::Rc;
use std::sync::mpsc::{channel, Sender};

type Log = Rc<RefCell<Vec<String>>>;

struct Probe {
    name: String,
    consumes: bool,
    log: Log,
}

impl Probe {
    fn new(name: &str, consumes: bool, log: &Log) -> Probe {
        Probe { name: name.to_string(), consumes, log: log.clone() }
    }

    fn note(&self, what: String) {
        self.log.borrow_mut().push(format!("{}:{}", self.name, what));
    }
}

impl ImageEditorPlugin for Probe {
    fn setup(&mut self, _emitter: Sender<&Event>) {
        self.note("setup".to_string());
    }

    fn id(&self) -> String {
        self.name.clone()
    }

    fn activate(&mut self, _canvas: &VirtualCanvas) {
        self.note("activate".to_string());
    }

    fn draw(&self, canvas: &mut VirtualCanvas) {
        canvas.set_overlay_cell(0, 0, '*');
        self.note("draw".to_string());
    }

    fn act(&mut self, ev: &Event, _canvas: &mut VirtualCanvas) -> bool {
        let what = match ev {
            Event::Input(_) => "input".to_string(),
            Event::Special(d) => format!("special {}", d.meta),
            Event::Resize((w, h)) => format!("resize {}x{}", w, h),
            Event::Tick => "tick".to_string(),
        };
        self.note(what);
        self.consumes
    }

    fn deactivate(&mut self) {
        self.note("deactivate".to_string());
    }
}

fn store() -> CanvasStore {
    CanvasStore {
        width: 10,
        height: 5,
        data: vec![0u32; 50],
        o_width: 10,
        o_height: 5,
        overlay: vec![' '; 50],
    }
}

fn entries(log: &Log, prefix: &str) -> Vec<String> {
    log.borrow().iter().filter(|e| e.starts_with(prefix)).cloned().collect()
}

#[test]
fn sys_payload_names_no_plugin() {
    let (_tx, rx) = channel::<u64>();
    let d = EventData::sys("quit".to_string(), None, Some(rx));
    assert!(d.target_id.is_none());
    assert_eq!(d.meta, "quit");
    assert!(d.message.is_none());
    assert!(d.data.is_some());
}

#[test]
fn targeted_payload_keeps_its_target() {
    let (tx, rx) = channel::<String>();
    let d = EventData::new("brush".to_string(), "colour".to_string(), Some(rx), None);
    assert_eq!(d.target_id, Some("brush".to_string()));
    assert_eq!(d.meta, "colour");
    assert!(d.data.is_none());
    tx.send("red".to_string()).unwrap();
    assert_eq!(d.message.unwrap().recv().unwrap(), "red");
}

#[test]
fn overlay_persists_across_calls() {
    let mut st = store();
    {
        let c = st.canvas();
        c.overlay[2 * 10 + 3] = '#';
    }
    let c = st.canvas();
    assert_eq!(c.overlay[2 * 10 + 3], '#');
    assert_eq!(c.overlay_cell(3, 2), '#');
}

#[test]
fn overlay_cell_writes_one_cell() {
    let mut st = store();
    {
        let mut c = st.canvas();
        c.set_overlay_cell(9, 4, '@');
    }
    assert_eq!(st.overlay[49], '@');
    assert_eq!(st.overlay.iter().filter(|c| **c != ' ').count(), 1);
    assert!(st.data.iter().all(|p| *p == 0));
}

#[test]
fn pixel_round_trip() {
    let mut st = store();
    {
        let mut c = st.canvas();
        c.set_pixel(4, 3, 0xff00ff00);
        assert_eq!(c.pixel(4, 3), 0xff00ff00);
        assert_eq!(c.pixel(3, 4), 0);
    }
    assert_eq!(st.data[3 * 10 + 4], 0xff00ff00);
    assert_eq!(st.data.iter().filter(|p| **p != 0).count(), 1);
}

#[test]
fn duplicate_id_is_refused() {
    let log: Log = Rc::new(RefCell::new(Vec::new()));
    let (tx, _rx) = channel::<&Event>();
    let mut m = PluginManager::new();
    assert_eq!(m.register(Probe::new("a", false, &log), tx.clone()), Ok(0));
    assert_eq!(m.register(Probe::new("b", false, &log), tx.clone()), Ok(1));
    assert_eq!(m.register(Probe::new("a", true, &log), tx.clone()), Err(RegisterError::DuplicateId));
    assert_eq!(m.len(), 2);
    assert_eq!(m.state(1), PluginState::SetUp);
    assert_eq!(m.find(&"b".to_string()), Some(1));
    assert_eq!(m.find(&"c".to_string()), None);
    assert_eq!(entries(&log, "a:"), vec!["a:setup".to_string()]);
}

#[test]
fn second_activation_is_refused() {
    let log: Log = Rc::new(RefCell::new(Vec::new()));
    let (tx, _rx) = channel::<&Event>();
    let mut m = PluginManager::new();
    m.register(Probe::new("a", false, &log), tx).unwrap();
    let mut st = store();
    assert!(m.activate(0, &st.canvas()));
    assert!(!m.activate(0, &st.canvas()));
    assert_eq!(m.state(0), PluginState::Active);
    assert!(m.deactivate(0));
    assert!(!m.deactivate(0));
    assert_eq!(m.state(0), PluginState::Inactive);
    assert!(m.activate(0, &st.canvas()));
    assert_eq!(
        entries(&log, "a:"),
        vec!["a:setup", "a:activate", "a:deactivate", "a:activate"]
    );
}

#[test]
fn resize_stops_at_first_consumer() {
    let log: Log = Rc::new(RefCell::new(Vec::new()));
    let (tx, _rx) = channel::<&Event>();
    let mut m = PluginManager::new();
    m.register(Probe::new("idle", false, &log), tx.clone()).unwrap();
    m.register(Probe::new("first", false, &log), tx.clone()).unwrap();
    m.register(Probe::new("taker", true, &log), tx.clone()).unwrap();
    m.register(Probe::new("last", false, &log), tx.clone()).unwrap();
    let mut st = store();
    for i in 1..4 {
        assert!(m.activate(i, &st.canvas()));
    }
    let ev = Event::Resize((80, 24));
    let r = m.dispatch(&ev, &mut st.canvas());
    match r {
        Delivery::Broadcast { reached, consumed } => {
            assert_eq!(reached, vec![1, 2]);
            assert!(consumed);
        }
        other => panic!("unexpected delivery {:?}", other),
    }
    assert_eq!(entries(&log, "first:"), vec!["first:setup", "first:activate", "first:resize 80x24"]);
    assert_eq!(entries(&log, "taker:"), vec!["taker:setup", "taker:activate", "taker:resize 80x24"]);
    assert_eq!(entries(&log, "last:"), vec!["last:setup", "last:activate"]);
    assert_eq!(entries(&log, "idle:"), vec!["idle:setup"]);
}

#[test]
fn unconsumed_tick_reaches_every_active_plugin() {
    let log: Log = Rc::new(RefCell::new(Vec::new()));
    let (tx, _rx) = channel::<&Event>();
    let mut m = PluginManager::new();
    m.register(Probe::new("a", false, &log), tx.clone()).unwrap();
    m.register(Probe::new("b", false, &log), tx.clone()).unwrap();
    m.register(Probe::new("c", false, &log), tx.clone()).unwrap();
    let mut st = store();
    m.activate(0, &st.canvas());
    m.activate(2, &st.canvas());
    match m.dispatch(&Event::Tick, &mut st.canvas()) {
        Delivery::Broadcast { reached, consumed } => {
            assert_eq!(reached, vec![0, 2]);
            assert!(!consumed);
        }
        other => panic!("unexpected delivery {:?}", other),
    }
    assert_eq!(entries(&log, "b:"), vec!["b:setup"]);
}

#[test]
fn ping_reaches_its_target_once() {
    let log: Log = Rc::new(RefCell::new(Vec::new()));
    let (tx, _rx) = channel::<&Event>();
    let mut m = PluginManager::new();
    m.register(Probe::new("sender", false, &log), tx.clone()).unwrap();
    m.register(Probe::new("peer", true, &log), tx.clone()).unwrap();
    let mut st = store();
    m.activate(0, &st.canvas());
    let ev = Event::Special(EventData::new("peer".to_string(), "ping".to_string(), None, None));
    match m.dispatch(&ev, &mut st.canvas()) {
        Delivery::Target { index, consumed } => {
            assert_eq!(index, 1);
            assert!(consumed);
        }
        other => panic!("unexpected delivery {:?}", other),
    }
    assert_eq!(entries(&log, "peer:"), vec!["peer:setup", "peer:special ping"]);
    assert_eq!(entries(&log, "sender:"), vec!["sender:setup", "sender:activate"]);
}

#[test]
fn untargeted_special_stays_with_manager() {
    let log: Log = Rc::new(RefCell::new(Vec::new()));
    let (tx, _rx) = channel::<&Event>();
    let mut m = PluginManager::new();
    m.register(Probe::new("a", true, &log), tx).unwrap();
    let mut st = store();
    m.activate(0, &st.canvas());
    let ev = Event::Special(EventData::sys("save".to_string(), None, None));
    assert!(matches!(m.dispatch(&ev, &mut st.canvas()), Delivery::Manager));
    assert_eq!(entries(&log, "a:"), vec!["a:setup", "a:activate"]);
}

#[test]
fn unknown_target_is_dropped() {
    let log: Log = Rc::new(RefCell::new(Vec::new()));
    let (tx, _rx) = channel::<&Event>();
    let mut m = PluginManager::new();
    m.register(Probe::new("a", true, &log), tx).unwrap();
    let mut st = store();
    m.activate(0, &st.canvas());
    let ev = Event::Special(EventData::new("ghost".to_string(), "ping".to_string(), None, None));
    assert!(matches!(m.dispatch(&ev, &mut st.canvas()), Delivery::DeadLetter));
    assert_eq!(entries(&log, "a:"), vec!["a:setup", "a:activate"]);
}

#[test]
fn only_active_plugins_draw() {
    let log: Log = Rc::new(RefCell::new(Vec::new()));
    let (tx, _rx) = channel::<&Event>();
    let mut m = PluginManager::new();
    m.register(Probe::new("a", false, &log), tx.clone()).unwrap();
    m.register(Probe::new("b", false, &log), tx.clone()).unwrap();
    let mut st = store();
    m.activate(1, &st.canvas());
    let drawn = m.draw(&mut st.canvas());
    assert_eq!(drawn, vec![1]);
    assert_eq!(st.overlay[0], '*');
    assert_eq!(entries(&log, "a:"), vec!["a:setup"]);
    assert_eq!(entries(&log, "b:"), vec!["b:setup", "b:activate", "b:draw"]);
}

#[test]
fn register_as_uses_the_given_id() {
    let log: Log = Rc::new(RefCell::new(Vec::new()));
    let (tx, _rx) = channel::<&Event>();
    let mut m = PluginManager::new();
    assert_eq!(m.register_as(Probe::new("a", false, &log), "alias".to_string(), tx.clone()), Ok(0));
    assert_eq!(m.find(&"alias".to_string()), Some(0));
    assert_eq!(m.find(&"a".to_string()), None);
    assert_eq!(
        m.register_as(Probe::new("b", false, &log), "alias".to_string(), tx.clone()),
        Err(RegisterError::DuplicateId)
    );
    assert_eq!(m.register(Probe::new("a", false, &log), tx), Ok(1));
    assert_eq!(entries(&log, "b:"), Vec::<String>::new());
}
