//! The panel on a recording page host: the view it builds, the click it
//! publishes, the number it renders, and the state it keeps on `state`.
//!
//! The host here answers the panel's actions the way the page host does: it
//! makes elements and hands out their handles, records every call, records
//! what was published on which port, carries the retained `state` body from
//! one answered activation to the next, and clears the host element before
//! each mount.

use std::collections::HashMap;

use brenn_component_demo::body::{decimal_text, state_body};
use brenn_component_demo::envelope::{TotalEnvelope, TotalError};
use brenn_component_demo::panel::{
    build_view, DomOp, Delivery, NodeRef, PanelAction, PanelError, PanelEvent, PanelInput,
    PanelRun, Retained, Sync,
};

const PRESS_PORT: &str = "press";
const CLICKS_PORT: &str = "clicks";
const TOTAL_PORT: &str = "total";
const STATE_PORT: &str = "state";
const PRESS_MARKER: &str = "data-demo-press";
const TOTAL_MARKER: &str = "data-demo-total";
const WRONG_DOCTYPE_BODY: &str = r#"{"tot":1}"#;
const ROOT: u64 = 0;

fn total_body(total: u64) -> String {
    format!(r#"{{"total":{total}}}"#)
}

#[derive(Clone)]
enum PublishError {
    QuotaExceeded,
}

#[derive(Default)]
struct Element {
    marker: String,
    text: String,
    children: Vec<u64>,
}

struct Page {
    elements: HashMap<u64, Element>,
    next_handle: u64,
    published: Vec<(String, String)>,
    publish_answer: Option<PublishError>,
    publish_answer_on: HashMap<String, PublishError>,
}

impl Page {
    fn new() -> Page {
        let mut elements = HashMap::new();
        elements.insert(ROOT, Element::default());
        Page {
            elements,
            next_handle: 1,
            published: vec![],
            publish_answer: None,
            publish_answer_on: HashMap::new(),
        }
    }

    fn marked_child(&self, parent: u64, marker: &str) -> u64 {
        *self.elements[&parent]
            .children
            .iter()
            .find(|c| self.elements[*c].marker == marker)
            .expect("a child carries the marker")
    }

    fn text_of(&self, node: u64) -> String {
        self.elements[&node].text.clone()
    }

    fn children(&self, node: u64) -> Vec<u64> {
        self.elements[&node].children.clone()
    }

    fn published_on(&self, port: &str) -> Vec<String> {
        self.published
            .iter()
            .filter(|(p, _)| p == port)
            .map(|(_, b)| b.clone())
            .collect()
    }
}

enum Wake {
    Mount,
    Gesture(String),
    Delivery { port: String, new: Vec<String> },
}

fn mount() -> Wake {
    Wake::Mount
}

fn gesture(port: &str, _node: u64) -> Wake {
    Wake::Gesture(port.to_string())
}

fn delivery_on(port: &str, _context: &[&str], new: &[&str], _dropped: u64) -> Wake {
    Wake::Delivery { port: port.to_string(), new: new.iter().map(|b| b.to_string()).collect() }
}

fn envelope(body: &str) -> TotalEnvelope {
    let total = serde_json::from_str::<serde_json::Value>(body)
        .ok()
        .and_then(|v| v.get("total").and_then(|t| t.as_u64()));
    TotalEnvelope::Body { body: body.to_string(), total }
}

/// The retained state body, as the panel reads its `state` port.
fn retained(state: &Option<String>) -> Retained {
    match state {
        None => Retained::Nothing,
        Some(body) => match serde_json::from_str::<serde_json::Value>(body)
            .ok()
            .and_then(|v| v.get("display").and_then(|d| d.as_u64()))
        {
            Some(h) => Retained::Display(h),
            None => Retained::Unreadable(format!("port {STATE_PORT:?}: body {body} is unreadable")),
        },
    }
}

struct Harness {
    page: Page,
    state: Option<String>,
    transcript: Vec<String>,
}

impl Harness {
    fn new() -> Harness {
        Harness { page: Page::new(), state: None, transcript: vec![] }
    }

    fn seeding_state(mut self, body: &str) -> Harness {
        self.state = Some(body.to_string());
        self
    }

    fn page(&mut self) -> &mut Page {
        &mut self.page
    }

    fn transcript(&self) -> Vec<String> {
        self.transcript.clone()
    }

    fn node(&self, made: &[u64], r: &NodeRef) -> u64 {
        match r {
            NodeRef::Root => ROOT,
            NodeRef::Made(i) => made[*i],
        }
    }

    fn build(&mut self) -> u64 {
        let plan = build_view();
        let mut made: Vec<u64> = vec![];
        for op in &plan.ops {
            match op {
                DomOp::Make { tag, marker } => {
                    let h = self.page.next_handle;
                    self.page.next_handle += 1;
                    self.page.elements.insert(
                        h,
                        Element { marker: marker.to_string(), ..Element::default() },
                    );
                    self.transcript.push(format!("dom.marked({tag}, {marker})"));
                    made.push(h);
                },
                DomOp::SetText { node, text } => {
                    let n = self.node(&made, node);
                    self.page.elements.get_mut(&n).unwrap().text = text.to_string();
                    self.transcript.push(format!("dom.set_text(n{n}, {text})"));
                },
                DomOp::Append { parent, child } => {
                    let (p, c) = (self.node(&made, parent), self.node(&made, child));
                    self.page.elements.get_mut(&p).unwrap().children.push(c);
                    self.transcript.push(format!("dom.append(n{p}, n{c})"));
                },
                DomOp::Listen { node, event, port } => {
                    let n = self.node(&made, node);
                    self.transcript.push(format!("dom.listen(n{n}, {event}, {port})"));
                },
            }
        }
        self.node(&made, &plan.display)
    }

    fn publish(&mut self, port: &str, body: String) -> Option<PublishError> {
        self.transcript.push(format!("ports.publish({port}, {body})"));
        let answer = self
            .page
            .publish_answer_on
            .get(port)
            .cloned()
            .or_else(|| self.page.publish_answer.clone());
        if answer.is_none() {
            self.page.published.push((port.to_string(), body));
        }
        answer
    }

    fn call(&mut self, wake: Wake) {
        if let Err(e) = self.run(wake) {
            panic!("the activation must be answered: {e:?}");
        }
    }

    fn call_expecting_a_refusal(&mut self, wake: Wake) -> PanelError {
        match self.run(wake) {
            Err(e) => e,
            Ok(()) => panic!("the activation must be refused"),
        }
    }

    fn run(&mut self, wake: Wake) -> Result<(), PanelError> {
        let (sync, deliveries) = match wake {
            Wake::Mount => {
                self.page.elements.get_mut(&ROOT).unwrap().children.clear();
                (Sync::Mount, vec![])
            },
            Wake::Gesture(port) => (Sync::Gesture(port), vec![]),
            Wake::Delivery { port, new } => {
                let d = if port == TOTAL_PORT {
                    Delivery::Total { new: new.iter().map(|b| envelope(b)).collect() }
                } else {
                    Delivery::Unknown { refusal: format!("no input port {port:?}") }
                };
                (Sync::Quiet, vec![d])
            },
        };
        let input = PanelInput { sync, retained: retained(&self.state), deliveries };
        let mut stored: Option<String> = None;
        let (mut run, mut action) = PanelRun::start(input);
        loop {
            let event = match action {
                PanelAction::BuildView => PanelEvent::ViewBuilt { display: self.build() },
                PanelAction::StoreState { display } => {
                    let body = state_body(display);
                    match self.publish(STATE_PORT, body.clone()) {
                        None => {
                            stored = Some(body);
                            PanelEvent::StateStored
                        },
                        Some(_) => PanelEvent::StateRefused {
                            reason: format!("port {STATE_PORT:?}: the publish quota is exhausted"),
                        },
                    }
                },
                PanelAction::PublishClick => match self.publish(CLICKS_PORT, "{}".to_string()) {
                    None => PanelEvent::ClickAccepted,
                    Some(PublishError::QuotaExceeded) => PanelEvent::ClickOverQuota,
                },
                PanelAction::Warn { message } => {
                    self.transcript.push(format!("log.warn({message})"));
                    PanelEvent::Logged
                },
                PanelAction::SetText { node, total } => {
                    let text = decimal_text(total);
                    self.transcript.push(format!("dom.set_text(n{node}, {text})"));
                    self.page.elements.entry(node).or_default().text = text;
                    PanelEvent::TextSet
                },
                PanelAction::Finish(outcome) => {
                    if outcome.is_ok() {
                        if let Some(body) = stored {
                            self.state = Some(body);
                        }
                    }
                    return outcome;
                },
            };
            action = run.step(event);
        }
    }
}

fn unmounted() -> Harness {
    Harness::new()
}

fn mounted() -> Harness {
    let mut harness = unmounted();
    harness.call(mount());
    harness
}

#[test]
fn the_mount_activation_builds_the_view_and_wires_the_press() {
    let mut harness = mounted();
    let transcript = harness.transcript();

    let page = harness.page();
    let button = page.marked_child(ROOT, PRESS_MARKER);
    let total = page.marked_child(ROOT, TOTAL_MARKER);
    assert_eq!(page.text_of(button), "press");
    assert_eq!(page.text_of(total), "0", "the number is drawn before any counter has published one");
    assert_eq!(page.children(ROOT), vec![button, total]);

    assert!(
        transcript.iter().any(|call| call == &format!("dom.listen(n{button}, click, {PRESS_PORT})")),
        "{transcript:?}",
    );
    assert!(transcript.iter().all(|call| !call.starts_with("page-dom.")), "{transcript:?}");
}

#[test]
fn each_press_publishes_one_click() {
    let mut harness = mounted();
    let button = harness.page().marked_child(ROOT, PRESS_MARKER);

    harness.call(gesture(PRESS_PORT, button));
    harness.call(gesture(PRESS_PORT, button));

    assert_eq!(harness.page().published_on(CLICKS_PORT), vec!["{}", "{}"]);
}

#[test]
fn a_delivered_total_sets_the_number() {
    let mut harness = mounted();
    let total = harness.page().marked_child(ROOT, TOTAL_MARKER);

    let seven = total_body(7);
    harness.call(delivery_on(TOTAL_PORT, &[], &[&seven], 0));
    assert_eq!(harness.page().text_of(total), "7");

    let (eight, nine) = (total_body(8), total_body(9));
    harness.call(delivery_on(TOTAL_PORT, &[&seven], &[&eight, &nine], 0));
    assert_eq!(harness.page().text_of(total), "9");

    assert!(harness.page().published_on(CLICKS_PORT).is_empty(), "rendering a total is not a click");
}

#[test]
fn a_gesture_on_a_port_the_panel_wired_nothing_to_is_refused() {
    let mut harness = mounted();
    let button = harness.page().marked_child(ROOT, PRESS_MARKER);

    let error = harness.call_expecting_a_refusal(gesture("nope", button));
    match error {
        PanelError::UnwiredGesture(port) => assert!(port.contains("nope"), "{port}"),
        other => panic!("an unwired gesture is a refusal naming the port: {other:?}"),
    }
    assert!(harness.page().published_on(CLICKS_PORT).is_empty(), "a refused gesture publishes nothing");
}

#[test]
fn panel_a_total_that_is_not_the_doctype_is_refused() {
    let mut harness = mounted();
    let total = harness.page().marked_child(ROOT, TOTAL_MARKER);

    let seven = total_body(7);
    harness.call(delivery_on(TOTAL_PORT, &[], &[&seven], 0));

    let error =
        harness.call_expecting_a_refusal(delivery_on(TOTAL_PORT, &[], &[WRONG_DOCTYPE_BODY], 0));
    match error {
        PanelError::Total(TotalError::NotATotal { body }) => assert_eq!(body, WRONG_DOCTYPE_BODY),
        other => panic!("the guest refuses this itself: {other:?}"),
    }
    assert_eq!(harness.page().text_of(total), "7", "the number is the last one delivered");
}

#[test]
fn a_press_the_publish_quota_refuses_is_logged_and_survived() {
    let mut harness = mounted();
    let button = harness.page().marked_child(ROOT, PRESS_MARKER);
    harness.page().publish_answer = Some(PublishError::QuotaExceeded);

    harness.call(gesture(PRESS_PORT, button));

    let transcript = harness.transcript();
    assert!(
        transcript.iter().any(|call| call.starts_with("log.warn") && call.contains("quota")),
        "the dropped press is narrated rather than silent: {transcript:?}",
    );
    assert!(harness.page().published_on(CLICKS_PORT).is_empty());
}

#[test]
fn the_mount_activation_stores_the_display_handle_and_later_ones_store_nothing() {
    let mut harness = mounted();
    let total = harness.page().marked_child(ROOT, TOTAL_MARKER);
    let button = harness.page().marked_child(ROOT, PRESS_MARKER);

    harness.call(gesture(PRESS_PORT, button));
    harness.call(delivery_on(TOTAL_PORT, &[], &[&total_body(4)], 0));

    assert_eq!(harness.page().published_on(STATE_PORT), vec![state_body(total)]);
}

#[test]
fn a_total_delivered_after_a_press_is_rendered_through_the_handle_the_mount_built() {
    let mut harness = mounted();
    let total = harness.page().marked_child(ROOT, TOTAL_MARKER);
    let button = harness.page().marked_child(ROOT, PRESS_MARKER);

    harness.call(gesture(PRESS_PORT, button));
    harness.call(delivery_on(TOTAL_PORT, &[], &[&total_body(4)], 0));

    assert_eq!(harness.page().marked_child(ROOT, TOTAL_MARKER), total, "no second view was built");
    assert_eq!(harness.page().text_of(total), "4");
}

#[test]
fn a_state_body_the_panel_cannot_read_fails_the_activation() {
    let mut harness = unmounted().seeding_state(r#"{"display":"nope"}"#);

    let error = harness.call_expecting_a_refusal(mount());
    match error {
        PanelError::UnreadableState(why) => assert!(
            why.contains(&format!("port {STATE_PORT:?}")) && why.contains("unreadable"),
            "{why}",
        ),
        other => panic!("an unreadable state body is a refusal: {other:?}"),
    }
    assert!(harness.page().children(ROOT).is_empty(), "nothing was drawn");
}

#[test]
fn a_refused_state_write_fails_the_mount() {
    let mut harness = unmounted();
    harness
        .page()
        .publish_answer_on
        .insert(STATE_PORT.to_string(), PublishError::QuotaExceeded);

    let error = harness.call_expecting_a_refusal(mount());
    match error {
        PanelError::StateRefused(why) => {
            assert!(why.contains(&format!("port {STATE_PORT:?}")), "{why}")
        },
        other => panic!("a refused state write is a refusal: {other:?}"),
    }
    let transcript = harness.transcript();
    let attempts = transcript
        .iter()
        .filter(|call| call.starts_with(&format!("ports.publish({STATE_PORT},")))
        .count();
    assert_eq!(attempts, 1, "the state is stored once and the refusal is not retried: {transcript:?}");
}

#[test]
fn a_non_mount_activation_with_no_retained_state_is_refused() {
    let mut harness = unmounted();

    let error = harness.call_expecting_a_refusal(gesture(PRESS_PORT, ROOT));
    assert_eq!(error, PanelError::NoView);
    assert_eq!(
        harness.page().published_on(CLICKS_PORT),
        vec!["{}"],
        "the press is published before the view is looked up",
    );
}

#[test]
fn a_delivery_with_no_retained_state_is_refused_too() {
    let mut harness = unmounted();

    let four = total_body(4);
    let error = harness.call_expecting_a_refusal(delivery_on(TOTAL_PORT, &[], &[&four], 0));
    assert_eq!(error, PanelError::NoView);
}

#[test]
fn a_mount_over_a_display_handle_from_an_earlier_mount_builds_a_new_one() {
    let mut harness = unmounted().seeding_state(&state_body(4096));

    harness.call(mount());
    let total = harness.page().marked_child(ROOT, TOTAL_MARKER);
    assert_ne!(total, 4096, "the stale handle is not the one it kept");
    assert_eq!(harness.page().published_on(STATE_PORT), vec![state_body(total)]);

    harness.call(delivery_on(TOTAL_PORT, &[], &[&total_body(9)], 0));
    assert_eq!(harness.page().text_of(total), "9");
}
