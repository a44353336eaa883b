//! The page-hosted half of the demo: a button and a number.
//!
//! A mount activation builds the view and stores the handle of the element the
//! number is written to on the retained `state` port; a press publishes one
//! click; a delivery on `total` sets the number. The host instantiates the
//! component per activation, so the handle rides the `state` port between
//! activations.
//!
//! One activation is a [`PanelRun`]: a machine from what the host reports to
//! what the host is asked to do next. The driver performs each
//! [`PanelAction`] and answers with the [`PanelEvent`] it produced, until the
//! machine asks it to finish.

use vstd::prelude::*;
use vstd::string::*;

use crate::envelope::{read_envelope, TotalEnvelope, TotalError};

verus! {

/// The sync port the button's press arrives on.
pub open spec fn press_port() -> Seq<char> {
    "press"@
}

/// What woke the activation, besides its delivered windows.
#[derive(Debug, PartialEq, Eq)]
pub enum Sync {
    /// The mount call: the instance is put into service.
    Mount,
    /// A gesture, on the sync port the page's listener named.
    Gesture(String),
    /// Nothing but deliveries.
    Quiet,
}

/// What the retained `state` port offered the activation.
#[derive(Debug, PartialEq, Eq)]
pub enum Retained {
    /// No state body: nothing has been stored yet.
    Nothing,
    /// A state body naming the handle of the display element.
    Display(u64),
    /// A state body that could not be read; the reason.
    Unreadable(String),
}

/// One delivered window.
#[derive(Debug, PartialEq, Eq)]
pub enum Delivery {
    /// A window on a port the specification does not name; the refusal the
    /// port surface gave for it.
    Unknown { refusal: String },
    /// A window on `total`: its new envelopes, in order.
    Total { new: Vec<TotalEnvelope> },
}

/// Everything an activation is handed before it starts.
pub struct PanelInput {
    pub sync: Sync,
    pub retained: Retained,
    pub deliveries: Vec<Delivery>,
}

/// Why an activation is refused.
#[derive(Debug, PartialEq, Eq)]
pub enum PanelError {
    /// The retained state body could not be read.
    UnreadableState(String),
    /// The host refused to store the state; its reason.
    StateRefused(String),
    /// A gesture arrived on a sync port the panel wired nothing to.
    UnwiredGesture(String),
    /// The host refused the click for a reason other than quota.
    ClickRefused(String),
    /// No display handle reached this activation and it is not the mount.
    NoView,
    /// A window on a port the specification does not name.
    UnknownPort(String),
    /// The last new envelope of a `total` window gave no number.
    Total(TotalError),
    /// The driver answered with an event the pending action does not produce.
    UnexpectedEvent,
}

/// What the host is asked to do next.
#[derive(Debug, PartialEq, Eq)]
pub enum PanelAction {
    /// Build the view (see `build_view`) and report the display's handle.
    BuildView,
    /// Store the state naming `display` on the `state` port.
    StoreState { display: u64 },
    /// Publish one click on `clicks`.
    PublishClick,
    /// Log a warning.
    Warn { message: &'static str },
    /// Write the decimal text of `total` into the element `node`.
    SetText { node: u64, total: u64 },
    /// End the activation: answered, or refused.
    Finish(Result<(), PanelError>),
}

/// What the host reports back.
#[derive(Debug, PartialEq, Eq)]
pub enum PanelEvent {
    /// The view was built; the handle of its display element.
    ViewBuilt { display: u64 },
    /// The state was stored.
    StateStored,
    /// The host refused to store the state.
    StateRefused { reason: String },
    /// The click was published.
    ClickAccepted,
    /// The click was dropped: the publish quota is exhausted.
    ClickOverQuota,
    /// The click was refused for another reason.
    ClickRefused { reason: String },
    /// The warning was logged.
    Logged,
    /// The text was written.
    TextSet,
}

/// Where an activation stands.
#[derive(Debug, PartialEq, Eq)]
pub enum Phase {
    /// Waiting for the view to be built.
    Building,
    /// Waiting for the state naming `display` to be stored.
    Storing { display: u64 },
    /// Waiting for the click to be published.
    Publishing,
    /// Waiting for the quota warning to be logged.
    Warning,
    /// Waiting for a text to be written into `display`; the deliveries from
    /// `next` on are still to be read.
    Rendering { display: u64, next: usize },
    /// Done, with this outcome.
    Finished(Result<(), PanelError>),
}

/// One activation of the panel.
pub struct PanelRun {
    pub input: PanelInput,
    pub phase: Phase,
}

/// The warning a press dropped for quota is logged with.
pub open spec fn quota_warning() -> &'static str {
    "a press was dropped: the publish quota is exhausted"
}

/// Whether a delivery has something to say: a refusal, or a new envelope.
pub open spec fn speaks(d: Delivery) -> bool {
    match d {
        Delivery::Unknown { .. } => true,
        Delivery::Total { new } => new@.len() > 0,
    }
}

/// The first delivery from `from` on that has something to say, or the
/// number of deliveries where none has.
pub open spec fn next_speaking(ds: Seq<Delivery>, from: int) -> int
    decreases ds.len() - from,
{
    if from < 0 || from >= ds.len() {
        ds.len() as int
    } else if speaks(ds[from]) {
        from
    } else {
        next_speaking(ds, from + 1)
    }
}

/// The finished phase, and the action that ends the activation with `r`.
pub open spec fn finish(r: Result<(), PanelError>) -> (Phase, PanelAction) {
    (Phase::Finished(r), PanelAction::Finish(r))
}

/// Rendering into `display` from delivery `from` on: the next delivery with
/// something to say either sets the number to its last new total or refuses
/// the activation; with none left, the activation is answered.
pub open spec fn render_from(ds: Seq<Delivery>, display: u64, from: int) -> (Phase, PanelAction) {
    let j = next_speaking(ds, from);
    if j >= ds.len() {
        finish(Ok(()))
    } else {
        match ds[j] {
            Delivery::Unknown { refusal } => finish(Err(PanelError::UnknownPort(refusal))),
            Delivery::Total { new } => match read_envelope(new@.last()) {
                Ok(t) => (
                    Phase::Rendering { display, next: (j + 1) as usize },
                    PanelAction::SetText { node: display, total: t },
                ),
                Err(e) => finish(Err(PanelError::Total(e))),
            },
        }
    }
}

/// After the mount's store or the gesture: the display is the retained one,
/// and an activation without one cannot draw.
pub open spec fn look_up_view(input: PanelInput) -> (Phase, PanelAction) {
    match input.retained {
        Retained::Display(h) => render_from(input.deliveries@, h, 0),
        _ => finish(Err(PanelError::NoView)),
    }
}

/// The first phase and action of an activation.
pub open spec fn start_of(input: PanelInput) -> (Phase, PanelAction) {
    match input.retained {
        Retained::Unreadable(reason) => finish(Err(PanelError::UnreadableState(reason))),
        _ => match input.sync {
            Sync::Mount => (Phase::Building, PanelAction::BuildView),
            Sync::Gesture(port) => if port@ == press_port() {
                (Phase::Publishing, PanelAction::PublishClick)
            } else {
                finish(Err(PanelError::UnwiredGesture(port)))
            },
            Sync::Quiet => look_up_view(input),
        },
    }
}

/// The next phase and action, given the current phase and what the host
/// reported.
pub open spec fn step_of(input: PanelInput, phase: Phase, event: PanelEvent) -> (Phase, PanelAction) {
    match phase {
        Phase::Finished(r) => finish(r),
        Phase::Building => match event {
            PanelEvent::ViewBuilt { display } => (
                Phase::Storing { display },
                PanelAction::StoreState { display },
            ),
            _ => finish(Err(PanelError::UnexpectedEvent)),
        },
        Phase::Storing { display } => match event {
            PanelEvent::StateStored => render_from(input.deliveries@, display, 0),
            PanelEvent::StateRefused { reason } => finish(Err(PanelError::StateRefused(reason))),
            _ => finish(Err(PanelError::UnexpectedEvent)),
        },
        Phase::Publishing => match event {
            PanelEvent::ClickAccepted => look_up_view(input),
            PanelEvent::ClickOverQuota => (
                Phase::Warning,
                PanelAction::Warn { message: quota_warning() },
            ),
            PanelEvent::ClickRefused { reason } => finish(Err(PanelError::ClickRefused(reason))),
            _ => finish(Err(PanelError::UnexpectedEvent)),
        },
        Phase::Warning => match event {
            PanelEvent::Logged => look_up_view(input),
            _ => finish(Err(PanelError::UnexpectedEvent)),
        },
        Phase::Rendering { display, next } => match event {
            PanelEvent::TextSet => render_from(input.deliveries@, display, next as int),
            _ => finish(Err(PanelError::UnexpectedEvent)),
        },
    }
}

/// An element the view plan refers to: the instance's host element, or the
/// `i`th element the plan itself makes.
#[derive(Debug, PartialEq, Eq)]
pub enum NodeRef {
    Root,
    Made(usize),
}

/// One call on the page's `dom` capability.
#[derive(Debug, PartialEq, Eq)]
pub enum DomOp {
    /// Make an element of kind `tag` carrying the component's `marker`.
    Make { tag: &'static str, marker: &'static str },
    /// Write `text` into an element.
    SetText { node: NodeRef, text: &'static str },
    /// Hang `child` under `parent`.
    Append { parent: NodeRef, child: NodeRef },
    /// Route `event` on an element to the sync port `port`.
    Listen { node: NodeRef, event: &'static str, port: &'static str },
}

/// The calls that build the view, in order, and the element whose handle the
/// panel keeps: the one the number is written to.
pub struct ViewPlan {
    pub ops: Vec<DomOp>,
    pub display: NodeRef,
}

/// The view: a button marked `data-demo-press` reading "press", and a number
/// marked `data-demo-total` reading "0" before any counter has published one,
/// both under the host element, the button first, its click routed to the
/// `press` sync port.
pub open spec fn view_ops() -> Seq<DomOp> {
    seq![
        DomOp::Make { tag: "button", marker: "data-demo-press" },
        DomOp::SetText { node: NodeRef::Made(0), text: "press" },
        DomOp::Make { tag: "span", marker: "data-demo-total" },
        DomOp::SetText { node: NodeRef::Made(1), text: "0" },
        DomOp::Append { parent: NodeRef::Root, child: NodeRef::Made(0) },
        DomOp::Append { parent: NodeRef::Root, child: NodeRef::Made(1) },
        DomOp::Listen { node: NodeRef::Made(0), event: "click", port: "press" },
    ]
}

/// How many elements the first `n` calls make.
pub open spec fn made_before(ops: Seq<DomOp>, n: int) -> nat
    decreases n,
{
    if n <= 0 || ops.len() < n {
        0
    } else {
        made_before(ops, n - 1) + match ops[n - 1] {
            DomOp::Make { .. } => 1nat,
            _ => 0nat,
        }
    }
}

/// Whether `node` names an element that exists once `made` elements are made.
pub open spec fn names_existing(node: NodeRef, made: nat) -> bool {
    match node {
        NodeRef::Root => true,
        NodeRef::Made(i) => i < made,
    }
}

/// Every call names only the host element and elements made before it.
pub open spec fn plan_well_formed(ops: Seq<DomOp>, display: NodeRef) -> bool {
    &&& forall|i: int|
        0 <= i < ops.len() ==> match #[trigger] ops[i] {
            DomOp::Make { .. } => true,
            DomOp::SetText { node, .. } => names_existing(node, made_before(ops, i)),
            DomOp::Append { parent, child } => names_existing(parent, made_before(ops, i))
                && names_existing(child, made_before(ops, i)),
            DomOp::Listen { node, .. } => names_existing(node, made_before(ops, i)),
        }
    &&& names_existing(display, made_before(ops, ops.len() as int))
}

/// Builds the view under this instance's host element and wires the press.
pub fn build_view() -> (plan: ViewPlan)
    ensures
        plan.ops@ == view_ops(),
        plan.display == NodeRef::Made(1),
{
    let mut ops: Vec<DomOp> = Vec::new();
    ops.push(DomOp::Make { tag: "button", marker: "data-demo-press" });
    ops.push(DomOp::SetText { node: NodeRef::Made(0), text: "press" });
    ops.push(DomOp::Make { tag: "span", marker: "data-demo-total" });
    ops.push(DomOp::SetText { node: NodeRef::Made(1), text: "0" });
    ops.push(DomOp::Append { parent: NodeRef::Root, child: NodeRef::Made(0) });
    ops.push(DomOp::Append { parent: NodeRef::Root, child: NodeRef::Made(1) });
    ops.push(DomOp::Listen { node: NodeRef::Made(0), event: "click", port: "press" });
    assert(ops@ =~= view_ops());
    ViewPlan { ops, display: NodeRef::Made(1) }
}

/// The view names no element before it makes it, and the display it keeps is
/// one it made.
pub proof fn view_plan_is_well_formed()
    ensures
        plan_well_formed(view_ops(), NodeRef::Made(1)),
{
    let ops = view_ops();
    assert(made_before(ops, 0) == 0);
    assert(made_before(ops, 1) == 1);
    assert(made_before(ops, 2) == 1);
    assert(made_before(ops, 3) == 2);
    assert(made_before(ops, 4) == 2);
    assert(made_before(ops, 5) == 2);
    assert(made_before(ops, 6) == 2);
    assert(made_before(ops, 7) == 2);
}

impl TotalError {
    /// A copy of this error.
    pub fn duplicate(&self) -> (e: TotalError)
        ensures
            e == *self,
    {
        match self {
            TotalError::Undecodable(r) => TotalError::Undecodable(r.clone()),
            TotalError::NotATotal { body } => TotalError::NotATotal { body: body.clone() },
        }
    }
}

impl PanelError {
    /// A copy of this error.
    pub fn duplicate(&self) -> (e: PanelError)
        ensures
            e == *self,
    {
        match self {
            PanelError::UnreadableState(r) => PanelError::UnreadableState(r.clone()),
            PanelError::StateRefused(r) => PanelError::StateRefused(r.clone()),
            PanelError::UnwiredGesture(p) => PanelError::UnwiredGesture(p.clone()),
            PanelError::ClickRefused(r) => PanelError::ClickRefused(r.clone()),
            PanelError::NoView => PanelError::NoView,
            PanelError::UnknownPort(r) => PanelError::UnknownPort(r.clone()),
            PanelError::Total(e) => PanelError::Total(e.duplicate()),
            PanelError::UnexpectedEvent => PanelError::UnexpectedEvent,
        }
    }
}

fn duplicate_outcome(r: &Result<(), PanelError>) -> (d: Result<(), PanelError>)
    ensures
        d == *r,
{
    match r {
        Ok(u) => Ok(*u),
        Err(e) => Err(e.duplicate()),
    }
}

fn finished(r: Result<(), PanelError>) -> (pa: (Phase, PanelAction))
    ensures
        pa == finish(r),
{
    let d = duplicate_outcome(&r);
    (Phase::Finished(r), PanelAction::Finish(d))
}

fn render(ds: &Vec<Delivery>, display: u64, from: usize) -> (pa: (Phase, PanelAction))
    ensures
        pa == render_from(ds@, display, from as int),
{
    let mut j = from;
    while j < ds.len()
        invariant
            from <= j,
            next_speaking(ds@, from as int) == next_speaking(ds@, j as int),
        decreases ds.len() - j,
    {
        match &ds[j] {
            Delivery::Unknown { refusal } => {
                return finished(Err(PanelError::UnknownPort(refusal.clone())));
            },
            Delivery::Total { new } => {
                if new.len() > 0 {
                    return match new[new.len() - 1].read() {
                        Ok(t) => (
                            Phase::Rendering { display, next: j + 1 },
                            PanelAction::SetText { node: display, total: t },
                        ),
                        Err(e) => finished(Err(PanelError::Total(e))),
                    };
                }
            },
        }
        j = j + 1;
    }
    finished(Ok(()))
}

fn look_up(input: &PanelInput) -> (pa: (Phase, PanelAction))
    ensures
        pa == look_up_view(*input),
{
    match input.retained {
        Retained::Display(h) => render(&input.deliveries, h, 0),
        _ => finished(Err(PanelError::NoView)),
    }
}

impl PanelRun {
    /// Starts an activation: reads the retained state first, so an unreadable
    /// one refuses the activation before anything is drawn; then a mount
    /// builds the view, a press publishes one click, a gesture on any other
    /// port is refused, and an activation woken by deliveries alone renders
    /// them.
    pub fn start(input: PanelInput) -> (ra: (PanelRun, PanelAction))
        ensures
            ra.0.input == input,
            (ra.0.phase, ra.1) == start_of(input),
    {
        let pa = match &input.retained {
            Retained::Unreadable(reason) => finished(
                Err(PanelError::UnreadableState(reason.clone())),
            ),
            _ => match &input.sync {
                Sync::Mount => (Phase::Building, PanelAction::BuildView),
                Sync::Gesture(port) => {
                    let press = String::from_str("press");
                    if *port == press {
                        (Phase::Publishing, PanelAction::PublishClick)
                    } else {
                        finished(Err(PanelError::UnwiredGesture(port.clone())))
                    }
                },
                Sync::Quiet => look_up(&input),
            },
        };
        let (phase, action) = pa;
        (PanelRun { input, phase }, action)
    }

    /// Advances the activation by what the host reported of the pending
    /// action. A finished activation stays finished and repeats its outcome.
    pub fn step(&mut self, event: PanelEvent) -> (action: PanelAction)
        ensures
            final(self).input == old(self).input,
            (final(self).phase, action) == step_of(old(self).input, old(self).phase, event),
    {
        let pa = match &self.phase {
            Phase::Finished(r) => finished(duplicate_outcome(r)),
            Phase::Building => match event {
                PanelEvent::ViewBuilt { display } => (
                    Phase::Storing { display },
                    PanelAction::StoreState { display },
                ),
                _ => finished(Err(PanelError::UnexpectedEvent)),
            },
            Phase::Storing { display } => match event {
                PanelEvent::StateStored => render(&self.input.deliveries, *display, 0),
                PanelEvent::StateRefused { reason } => finished(
                    Err(PanelError::StateRefused(reason)),
                ),
                _ => finished(Err(PanelError::UnexpectedEvent)),
            },
            Phase::Publishing => match event {
                PanelEvent::ClickAccepted => look_up(&self.input),
                PanelEvent::ClickOverQuota => (
                    Phase::Warning,
                    PanelAction::Warn {
                        message: "a press was dropped: the publish quota is exhausted",
                    },
                ),
                PanelEvent::ClickRefused { reason } => finished(
                    Err(PanelError::ClickRefused(reason)),
                ),
                _ => finished(Err(PanelError::UnexpectedEvent)),
            },
            Phase::Warning => match event {
                PanelEvent::Logged => look_up(&self.input),
                _ => finished(Err(PanelError::UnexpectedEvent)),
            },
            Phase::Rendering { display, next } => match event {
                PanelEvent::TextSet => render(&self.input.deliveries, *display, *next),
                _ => finished(Err(PanelError::UnexpectedEvent)),
            },
        };
        let (phase, action) = pa;
        self.phase = phase;
        action
    }
}

} // verus!
