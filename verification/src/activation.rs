//! Whole activations of the panel: every action a run asks for, from its start
//! through each event the host reports, and what holds of every such run.

use vstd::prelude::*;

use crate::envelope::TotalEnvelope;
use crate::panel::{
    next_speaking, speaks, Delivery, PanelError,
    look_up_view, press_port, render_from, start_of, step_of, PanelAction, PanelEvent,
    PanelInput, Phase, Retained, Sync,
};

verus! {

/// The actions the machine asks for from `phase` on, one per event.
pub open spec fn trace(input: PanelInput, phase: Phase, events: Seq<PanelEvent>) -> Seq<
    PanelAction,
>
    decreases events.len(),
{
    if events.len() == 0 {
        Seq::empty()
    } else {
        let (next, action) = step_of(input, phase, events[0]);
        seq![action] + trace(input, next, events.drop_first())
    }
}

/// Whether an activation is a press the panel answers: a gesture on the
/// `press` sync port, with a retained state that could be read.
pub open spec fn is_press(input: PanelInput) -> bool {
    &&& !(input.retained is Unreadable)
    &&& match input.sync {
        Sync::Gesture(port) => port@ == press_port(),
        _ => false,
    }
}

/// Every action an activation asks for: the one it starts with, then one per
/// event the host reports.
pub open spec fn actions(input: PanelInput, events: Seq<PanelEvent>) -> Seq<PanelAction> {
    let (phase, first) = start_of(input);
    seq![first] + trace(input, phase, events)
}

/// How many of `actions` store the state.
pub open spec fn stores(actions: Seq<PanelAction>) -> nat
    decreases actions.len(),
{
    if actions.len() == 0 {
        0
    } else {
        (if actions[0] is StoreState { 1nat } else { 0nat }) + stores(actions.drop_first())
    }
}

/// How many of `actions` publish a click.
pub open spec fn clicks(actions: Seq<PanelAction>) -> nat
    decreases actions.len(),
{
    if actions.len() == 0 {
        0
    } else {
        (if actions[0] is PublishClick { 1nat } else { 0nat }) + clicks(actions.drop_first())
    }
}

/// Every text `actions` write goes into the element `display`.
pub open spec fn writes_only_into(actions: Seq<PanelAction>, display: u64) -> bool {
    forall|k: int|
        0 <= k < actions.len() ==> (#[trigger] actions[k] matches PanelAction::SetText {
            node,
            ..
        } ==> node == display)
}

proof fn lemma_drop_first_of_cons(a: PanelAction, rest: Seq<PanelAction>)
    ensures
        (seq![a] + rest).drop_first() == rest,
        (seq![a] + rest)[0] == a,
        (seq![a] + rest).len() == rest.len() + 1,
{
    assert((seq![a] + rest).drop_first() =~= rest);
}

/// Rendering never goes back to building or storing, never stores and never
/// publishes, and ends an activation only in the phase that repeats its end.
proof fn lemma_render_shape(input: PanelInput, display: u64, from: int)
    ensures
        ({
            let (p, a) = render_from(input.deliveries@, display, from);
            &&& p is Rendering || p is Finished
            &&& !(a is StoreState) && !(a is PublishClick) && !(a is BuildView)
            &&& a matches PanelAction::Finish(r) ==> p == Phase::Finished(r)
            &&& a matches PanelAction::SetText { node, .. } ==> node == display
            &&& p matches Phase::Rendering { display: d, .. } ==> d == display
        }),
{
}

proof fn lemma_look_up_shape(input: PanelInput)
    ensures
        ({
            let (p, a) = look_up_view(input);
            &&& p is Rendering || p is Finished
            &&& !(a is StoreState) && !(a is PublishClick) && !(a is BuildView)
            &&& a matches PanelAction::Finish(r) ==> p == Phase::Finished(r)
            &&& a matches PanelAction::SetText { node, .. } ==> input.retained == Retained::Display(
                node,
            )
            &&& p matches Phase::Rendering { display: d, .. } ==> input.retained
                == Retained::Display(d)
        }),
{
    match input.retained {
        Retained::Display(h) => lemma_render_shape(input, h, 0),
        _ => {},
    }
}

/// One step never enters the building phase, stores only when leaving it,
/// never publishes, and a step that ends the activation leaves it finished
/// with the same outcome.
proof fn lemma_step_shape(input: PanelInput, phase: Phase, event: PanelEvent)
    ensures
        ({
            let (p, a) = step_of(input, phase, event);
            &&& !(p is Building) && !(p is Publishing)
            &&& a is StoreState ==> phase is Building
            &&& !(a is PublishClick)
            &&& a matches PanelAction::Finish(r) ==> p == Phase::Finished(r)
            &&& phase matches Phase::Finished(r) ==> a == PanelAction::Finish(r) && p == phase
        }),
{
    match phase {
        Phase::Storing { display } => lemma_render_shape(input, display, 0),
        Phase::Rendering { display, next } => lemma_render_shape(input, display, next as int),
        Phase::Publishing => lemma_look_up_shape(input),
        Phase::Warning => lemma_look_up_shape(input),
        _ => {},
    }
}

proof fn lemma_trace_stores(input: PanelInput, phase: Phase, events: Seq<PanelEvent>)
    ensures
        stores(trace(input, phase, events)) <= (if phase is Building { 1nat } else { 0nat }),
    decreases events.len(),
{
    if events.len() > 0 {
        let (next, a) = step_of(input, phase, events[0]);
        lemma_step_shape(input, phase, events[0]);
        lemma_trace_stores(input, next, events.drop_first());
        lemma_drop_first_of_cons(a, trace(input, next, events.drop_first()));
        if phase is Building {
            lemma_step_shape(input, next, events[0]);
        }
    }
}

proof fn lemma_trace_clicks(input: PanelInput, phase: Phase, events: Seq<PanelEvent>)
    ensures
        clicks(trace(input, phase, events)) == 0,
    decreases events.len(),
{
    if events.len() > 0 {
        let (next, a) = step_of(input, phase, events[0]);
        lemma_step_shape(input, phase, events[0]);
        lemma_trace_clicks(input, next, events.drop_first());
        lemma_drop_first_of_cons(a, trace(input, next, events.drop_first()));
    }
}

proof fn lemma_start_shape(input: PanelInput)
    ensures
        ({
            let (p, a) = start_of(input);
            &&& !(a is StoreState)
            &&& p is Building ==> input.sync is Mount
            &&& a is PublishClick <==> is_press(input)
            &&& a matches PanelAction::Finish(r) ==> p == Phase::Finished(r)
            &&& !(input.sync is Mount) ==> !(p is Building) && !(p is Storing)
            &&& !(input.sync is Mount) ==> (a matches PanelAction::SetText { node, .. }
                ==> input.retained == Retained::Display(node))
            &&& !(input.sync is Mount) ==> (p matches Phase::Rendering { display: d, .. }
                ==> input.retained == Retained::Display(d))
        }),
{
    match input.retained {
        Retained::Unreadable(_) => {},
        _ => match input.sync {
            Sync::Quiet => lemma_look_up_shape(input),
            _ => {},
        },
    }
}

/// A delivery with nothing to say: a `total` window with no new envelope.
pub open spec fn silent(d: Delivery) -> bool {
    match d {
        Delivery::Total { new } => new@.len() == 0,
        _ => false,
    }
}

/// Every delivery before `j` is silent.
pub open spec fn silent_before(ds: Seq<Delivery>, j: int) -> bool {
    forall|i: int| 0 <= i < j ==> silent(#[trigger] ds[i])
}

/// A `total` window whose last new envelope is a decoded body carrying `t`.
pub open spec fn ends_in_total(d: Delivery, t: u64) -> bool {
    match d {
        Delivery::Total { new } => new@.len() > 0 && match new@.last() {
            TotalEnvelope::Body { total, .. } => total == Some(t),
            _ => false,
        },
        _ => false,
    }
}

/// The same activation, woken by its deliveries alone, over the display `h`.
pub open spec fn quiet_over(input: PanelInput, h: u64) -> PanelInput {
    PanelInput { sync: Sync::Quiet, retained: Retained::Display(h), deliveries: input.deliveries }
}

proof fn lemma_first_speaking(ds: Seq<Delivery>, from: int, j: int)
    requires
        0 <= from <= j < ds.len(),
        silent_before(ds, j),
        speaks(ds[j]),
    ensures
        next_speaking(ds, from) == j,
    decreases j - from,
{
    if from < j {
        assert(silent(ds[from]));
        lemma_first_speaking(ds, from + 1, j);
    }
}

proof fn lemma_none_speaking(ds: Seq<Delivery>, from: int)
    requires
        0 <= from <= ds.len(),
        silent_before(ds, ds.len() as int),
    ensures
        next_speaking(ds, from) == ds.len(),
    decreases ds.len() - from,
{
    if from < ds.len() {
        assert(silent(ds[from]));
        lemma_none_speaking(ds, from + 1);
    }
}

/// Rendering into `h`: the first delivery with something to say decides what
/// is done next. A `total` window ending in a total `t` writes `t` into `h`;
/// with nothing to say anywhere, the activation is answered.
pub proof fn rendering_writes_the_first_delivered_total(
    ds: Seq<Delivery>,
    h: u64,
    j: int,
    t: u64,
)
    requires
        0 <= j < ds.len(),
        silent_before(ds, j),
        ends_in_total(ds[j], t),
    ensures
        render_from(ds, h, 0).1 == (PanelAction::SetText { node: h, total: t }),
        render_from(ds, h, 0).0 == (Phase::Rendering { display: h, next: (j + 1) as usize }),
{
    lemma_first_speaking(ds, 0, j);
}

proof fn lemma_render_nothing(ds: Seq<Delivery>, h: u64)
    requires
        silent_before(ds, ds.len() as int),
    ensures
        render_from(ds, h, 0).1 == PanelAction::Finish(Ok::<(), PanelError>(())),
{
    lemma_none_speaking(ds, 0);
}

/// An activation woken by its deliveries alone, with a retained display `h`,
/// writes the first delivered total into `h`; with nothing delivered it is
/// answered at once.
pub proof fn a_quiet_activation_renders_what_was_delivered(input: PanelInput, h: u64, j: int, t: u64)
    requires
        (input.sync is Quiet),
        input.retained == Retained::Display(h),
    ensures
        0 <= j < input.deliveries@.len() && silent_before(input.deliveries@, j) && ends_in_total(
            input.deliveries@[j],
            t,
        ) ==> start_of(input).1 == (PanelAction::SetText { node: h, total: t }),
        silent_before(input.deliveries@, input.deliveries@.len() as int) ==> start_of(input).1
            == PanelAction::Finish(Ok::<(), PanelError>(())),
{
    if 0 <= j < input.deliveries@.len() && silent_before(input.deliveries@, j) && ends_in_total(
        input.deliveries@[j],
        t,
    ) {
        rendering_writes_the_first_delivered_total(input.deliveries@, h, j, t);
    }
    if silent_before(input.deliveries@, input.deliveries@.len() as int) {
        lemma_render_nothing(input.deliveries@, h);
    }
}

/// A press publishes its one click and then goes on exactly as an activation
/// woken by its deliveries alone: whether the click was accepted, or dropped
/// for quota and the warning logged, the deliveries are rendered into the
/// retained display. In particular a total delivered with the press is
/// written into the display.
pub proof fn a_press_then_renders_what_was_delivered(
    input: PanelInput,
    h: u64,
    j: int,
    t: u64,
)
    requires
        (input.sync matches Sync::Gesture(port) && port@ == "press"@),
        input.retained == Retained::Display(h),
    ensures
        start_of(input) == (Phase::Publishing, PanelAction::PublishClick),
        step_of(input, Phase::Publishing, PanelEvent::ClickAccepted) == start_of(
            quiet_over(input, h),
        ),
        (step_of(input, Phase::Publishing, PanelEvent::ClickOverQuota).1 is Warn),
        step_of(
            input,
            step_of(input, Phase::Publishing, PanelEvent::ClickOverQuota).0,
            PanelEvent::Logged,
        ) == start_of(quiet_over(input, h)),
        0 <= j < input.deliveries@.len() && silent_before(input.deliveries@, j) && ends_in_total(
            input.deliveries@[j],
            t,
        ) ==> {
            &&& step_of(input, Phase::Publishing, PanelEvent::ClickAccepted).1
                == (PanelAction::SetText { node: h, total: t })
            &&& step_of(
                input,
                step_of(input, Phase::Publishing, PanelEvent::ClickOverQuota).0,
                PanelEvent::Logged,
            ).1 == (PanelAction::SetText { node: h, total: t })
        },
{
    reveal_strlit("press");
    a_quiet_activation_renders_what_was_delivered(quiet_over(input, h), h, j, t);
}

/// A mount builds the view, stores the display it built, and then renders the
/// deliveries already pending into that display, whatever state it was
/// handed: in particular a total published before the panel came up is
/// written into the new display.
pub proof fn a_mount_renders_what_was_pending(input: PanelInput, d: u64, j: int, t: u64)
    requires
        (input.sync is Mount),
        !(input.retained is Unreadable),
    ensures
        start_of(input) == (Phase::Building, PanelAction::BuildView),
        step_of(input, Phase::Building, (PanelEvent::ViewBuilt { display: d })) == (
            (Phase::Storing { display: d }),
            (PanelAction::StoreState { display: d }),
        ),
        step_of(input, (Phase::Storing { display: d }), PanelEvent::StateStored) == start_of(
            quiet_over(input, d),
        ),
        0 <= j < input.deliveries@.len() && silent_before(input.deliveries@, j) && ends_in_total(
            input.deliveries@[j],
            t,
        ) ==> step_of(input, (Phase::Storing { display: d }), PanelEvent::StateStored).1
            == (PanelAction::SetText { node: d, total: t }),
        silent_before(input.deliveries@, input.deliveries@.len() as int) ==> step_of(
            input,
            (Phase::Storing { display: d }),
            PanelEvent::StateStored,
        ).1 == PanelAction::Finish(Ok::<(), PanelError>(())),
{
    a_quiet_activation_renders_what_was_delivered(quiet_over(input, d), d, j, t);
}

/// Every delivery from `from` up to `j` is silent.
pub open spec fn silent_between(ds: Seq<Delivery>, from: int, j: int) -> bool {
    forall|i: int| from <= i < j ==> silent(#[trigger] ds[i])
}

proof fn lemma_first_speaking_from(ds: Seq<Delivery>, from: int, j: int)
    requires
        0 <= from <= j <= ds.len(),
        silent_between(ds, from, j),
        j == ds.len() || speaks(ds[j]),
    ensures
        next_speaking(ds, from) == j,
    decreases j - from,
{
    if from < j {
        assert(silent(ds[from]));
        lemma_first_speaking_from(ds, from + 1, j);
    }
}

/// Once a text is written, the activation moves on to the next delivery with
/// something to say: a `total` window ending in `t` writes `t` into the same
/// display, a window on an unknown port or whose last envelope gives no number
/// refuses the activation, and with nothing left it is answered.
pub proof fn after_a_text_rendering_moves_on(input: PanelInput, h: u64, n: usize, j: int)
    requires
        n <= j <= input.deliveries@.len(),
        silent_between(input.deliveries@, n as int, j),
        j == input.deliveries@.len() || speaks(input.deliveries@[j]),
    ensures
        ({
            let ds = input.deliveries@;
            let next = step_of(input, Phase::Rendering { display: h, next: n }, PanelEvent::TextSet).1;
            &&& j == ds.len() ==> next == PanelAction::Finish(Ok::<(), PanelError>(()))
            &&& j < ds.len() ==> match ds[j] {
                Delivery::Unknown { refusal } => next == PanelAction::Finish(
                    Err::<(), PanelError>(PanelError::UnknownPort(refusal)),
                ),
                Delivery::Total { new } => match new@.last() {
                    TotalEnvelope::Body { body, total: Some(t) } => next
                        == PanelAction::SetText { node: h, total: t },
                    TotalEnvelope::Body { body, total: None } => next == PanelAction::Finish(
                        Err::<(), PanelError>(
                            PanelError::Total(crate::envelope::TotalError::NotATotal { body }),
                        ),
                    ),
                    TotalEnvelope::Undecodable(reason) => next == PanelAction::Finish(
                        Err::<(), PanelError>(
                            PanelError::Total(crate::envelope::TotalError::Undecodable(reason)),
                        ),
                    ),
                },
            }
        }),
{
    lemma_first_speaking_from(input.deliveries@, n as int, j);
}

/// The refusals an activation meets before it draws: an unreadable retained
/// state refuses any activation first; a gesture on any port but `press` is
/// refused naming the port; a press without a retained display publishes its
/// click and is then refused for want of a view, and a click the host refuses
/// for another reason refuses the activation; a mount whose state write is
/// refused is refused with the host's reason.
pub proof fn what_is_refused_before_drawing(input: PanelInput, reason: String, d: u64)
    ensures
        input.retained matches Retained::Unreadable(why) ==> start_of(input).1
            == PanelAction::Finish(Err::<(), PanelError>(PanelError::UnreadableState(why))),
        !(input.retained is Unreadable) ==> (input.sync matches Sync::Gesture(port) ==> (port@
            != "press"@ ==> start_of(input).1 == PanelAction::Finish(
            Err::<(), PanelError>(PanelError::UnwiredGesture(port)),
        ))),
        input.retained is Nothing ==> step_of(input, Phase::Publishing, PanelEvent::ClickAccepted).1
            == PanelAction::Finish(Err::<(), PanelError>(PanelError::NoView)),
        step_of(input, Phase::Publishing, (PanelEvent::ClickRefused { reason })).1
            == PanelAction::Finish(Err::<(), PanelError>(PanelError::ClickRefused(reason))),
        step_of(input, (Phase::Storing { display: d }), (PanelEvent::StateRefused { reason })).1
            == PanelAction::Finish(Err::<(), PanelError>(PanelError::StateRefused(reason))),
{
    reveal_strlit("press");
}

/// The state is stored at most once per activation, and only by the mount:
/// later activations store nothing.
pub proof fn state_is_stored_once_and_only_by_the_mount(
    input: PanelInput,
    events: Seq<PanelEvent>,
)
    ensures
        stores(actions(input, events)) <= 1,
        !(input.sync is Mount) ==> stores(actions(input, events)) == 0,
{
    let (p, a) = start_of(input);
    lemma_start_shape(input);
    lemma_trace_stores(input, p, events);
    lemma_drop_first_of_cons(a, trace(input, p, events));
}

/// An activation publishes at most one click, and only when it is a press on
/// the `press` sync port and the retained state could be read.
pub proof fn at_most_one_click_and_only_for_a_press(input: PanelInput, events: Seq<PanelEvent>)
    ensures
        clicks(actions(input, events)) == (if is_press(input) { 1nat } else { 0nat }),
{
    let (p, a) = start_of(input);
    lemma_start_shape(input);
    lemma_trace_clicks(input, p, events);
    lemma_drop_first_of_cons(a, trace(input, p, events));
}

proof fn lemma_finished_repeats(input: PanelInput, phase: Phase, events: Seq<PanelEvent>)
    requires
        phase is Finished,
    ensures
        forall|k: int|
            0 <= k < events.len() ==> #[trigger] trace(input, phase, events)[k]
                == PanelAction::Finish(phase->0),
        trace(input, phase, events).len() == events.len(),
    decreases events.len(),
{
    if events.len() > 0 {
        let (next, a) = step_of(input, phase, events[0]);
        lemma_step_shape(input, phase, events[0]);
        lemma_finished_repeats(input, next, events.drop_first());
        let rest = trace(input, next, events.drop_first());
        assert forall|k: int| 0 <= k < events.len() implies #[trigger] trace(
            input,
            phase,
            events,
        )[k] == PanelAction::Finish(phase->0) by {
            if k > 0 {
                assert((seq![a] + rest)[k] == rest[k - 1]);
            }
        }
    }
}

proof fn lemma_trace_len(input: PanelInput, phase: Phase, events: Seq<PanelEvent>)
    ensures
        trace(input, phase, events).len() == events.len(),
    decreases events.len(),
{
    if events.len() > 0 {
        lemma_trace_len(input, step_of(input, phase, events[0]).0, events.drop_first());
    }
}

proof fn lemma_trace_ends_for_good(input: PanelInput, phase: Phase, events: Seq<PanelEvent>)
    ensures
        forall|i: int, j: int|
            0 <= i <= j < trace(input, phase, events).len() && (#[trigger] trace(
                input,
                phase,
                events,
            )[i] is Finish) ==> #[trigger] trace(input, phase, events)[j] == trace(
                input,
                phase,
                events,
            )[i],
    decreases events.len(),
{
    if events.len() > 0 {
        let (next, a) = step_of(input, phase, events[0]);
        let rest = trace(input, next, events.drop_first());
        let t = trace(input, phase, events);
        lemma_step_shape(input, phase, events[0]);
        lemma_trace_ends_for_good(input, next, events.drop_first());
        lemma_trace_len(input, next, events.drop_first());
        assert(t == seq![a] + rest);
        assert forall|i: int, j: int|
            0 <= i <= j < t.len() && (#[trigger] t[i] is Finish) implies #[trigger] t[j]
            == t[i] by {
            if i == 0 {
                lemma_finished_repeats(input, next, events.drop_first());
                if j > 0 {
                    assert(t[j] == rest[j - 1]);
                }
            } else {
                assert(t[i] == rest[i - 1]);
                assert(t[j] == rest[j - 1]);
            }
        }
    }
}

/// Once an activation asks to finish, it asks nothing else: every later
/// action repeats the same outcome.
pub proof fn finishing_is_final(input: PanelInput, events: Seq<PanelEvent>)
    ensures
        forall|i: int, j: int|
            0 <= i <= j < actions(input, events).len() && (#[trigger] actions(input, events)[i] is Finish)
                ==> #[trigger] actions(input, events)[j] == actions(input, events)[i],
{
    let (p, a) = start_of(input);
    let rest = trace(input, p, events);
    let all = actions(input, events);
    lemma_start_shape(input);
    lemma_trace_ends_for_good(input, p, events);
    lemma_trace_len(input, p, events);
    assert(all == seq![a] + rest);
    assert forall|i: int, j: int|
        0 <= i <= j < all.len() && (#[trigger] all[i] is Finish) implies #[trigger] all[j]
        == all[i] by {
        if i == 0 {
            lemma_finished_repeats(input, p, events);
            if j > 0 {
                assert(all[j] == rest[j - 1]);
            }
        } else {
            assert(all[i] == rest[i - 1]);
            assert(all[j] == rest[j - 1]);
        }
    }
}

/// The display a phase writes into: the one it carries, or for the phases
/// before the view is looked up, the retained one.
pub open spec fn draws_into(input: PanelInput, phase: Phase, display: u64) -> bool {
    match phase {
        Phase::Building => false,
        Phase::Storing { display: d } => d == display,
        Phase::Rendering { display: d, .. } => d == display,
        Phase::Publishing => input.retained == Retained::Display(display) || !(
        input.retained is Display),
        Phase::Warning => input.retained == Retained::Display(display) || !(
        input.retained is Display),
        Phase::Finished(_) => true,
    }
}

proof fn lemma_trace_writes_into(
    input: PanelInput,
    phase: Phase,
    events: Seq<PanelEvent>,
    display: u64,
)
    requires
        draws_into(input, phase, display),
    ensures
        writes_only_into(trace(input, phase, events), display),
    decreases events.len(),
{
    if events.len() > 0 {
        let (next, a) = step_of(input, phase, events[0]);
        let rest = trace(input, next, events.drop_first());
        let t = trace(input, phase, events);
        lemma_step_shape(input, phase, events[0]);
        match phase {
            Phase::Storing { display: d } => lemma_render_shape(input, d, 0),
            Phase::Rendering { display: d, next: n } => lemma_render_shape(input, d, n as int),
            Phase::Publishing => lemma_look_up_shape(input),
            Phase::Warning => lemma_look_up_shape(input),
            _ => {},
        }
        lemma_trace_writes_into(input, next, events.drop_first(), display);
        assert(t == seq![a] + rest);
        assert forall|k: int| 0 <= k < t.len() implies (#[trigger] t[k] matches PanelAction::SetText {
            node,
            ..
        } ==> node == display) by {
            if k > 0 {
                assert(t[k] == rest[k - 1]);
            }
        }
    }
}

/// Every number an activation that is not the mount writes goes into the
/// display the retained state named; without one, it writes nothing.
pub proof fn later_activations_write_through_the_retained_display(
    input: PanelInput,
    events: Seq<PanelEvent>,
)
    requires
        !(input.sync is Mount),
    ensures
        forall|k: int|
            0 <= k < actions(input, events).len() ==> (#[trigger] actions(input, events)[k] matches PanelAction::SetText {
                node,
                ..
            } ==> input.retained == Retained::Display(node)),
{
    let (p, a) = start_of(input);
    let rest = trace(input, p, events);
    let all = actions(input, events);
    lemma_start_shape(input);
    assert(all == seq![a] + rest);
    match input.retained {
        Retained::Display(h) => {
            lemma_trace_writes_into(input, p, events, h);
        },
        _ => {
            lemma_trace_writes_into(input, p, events, 0);
            lemma_trace_writes_into(input, p, events, 1);
        },
    }
    assert forall|k: int| 0 <= k < all.len() implies (#[trigger] all[k] matches PanelAction::SetText {
        node,
        ..
    } ==> input.retained == Retained::Display(node)) by {
        if k > 0 {
            assert(all[k] == rest[k - 1]);
            if input.retained is Display {
            } else {
                assert(rest[k - 1] is SetText ==> rest[k - 1]->node == 0 && rest[k - 1]->node
                    == 1);
            }
        }
    }
}

/// Every number a mount writes goes into the display it built, whatever
/// display an earlier mount left in the retained state.
pub proof fn the_mount_writes_through_the_display_it_built(
    input: PanelInput,
    events: Seq<PanelEvent>,
)
    requires
        input.sync is Mount,
    ensures
        forall|k: int|
            0 <= k < actions(input, events).len() ==> (#[trigger] actions(input, events)[k] matches PanelAction::SetText {
                node,
                ..
            } ==> events[0] == PanelEvent::ViewBuilt { display: node }),
{
    let (p, a) = start_of(input);
    let all = actions(input, events);
    lemma_start_shape(input);
    if events.len() > 0 && p is Building {
        let (p1, a1) = step_of(input, p, events[0]);
        let rest = trace(input, p1, events.drop_first());
        assert(all == seq![a] + (seq![a1] + rest));
        match events[0] {
            PanelEvent::ViewBuilt { display } => {
                lemma_trace_writes_into(input, p1, events.drop_first(), display);
            },
            _ => {
                lemma_finished_repeats(input, p1, events.drop_first());
                lemma_trace_len(input, p1, events.drop_first());
            },
        }
        assert forall|k: int| 0 <= k < all.len() implies (#[trigger] all[k] matches PanelAction::SetText {
            node,
            ..
        } ==> events[0] == PanelEvent::ViewBuilt { display: node }) by {
            if k > 1 {
                assert(all[k] == rest[k - 2]);
            } else if k == 1 {
                assert(all[k] == a1);
            }
        }
    } else if events.len() > 0 {
        // the start finished the activation: every action repeats that end
        lemma_finished_repeats(input, p, events);
        let rest = trace(input, p, events);
        assert(all == seq![a] + rest);
        assert forall|k: int| 0 <= k < all.len() implies !(#[trigger] all[k] is SetText) by {
            if k > 0 {
                assert(all[k] == rest[k - 1]);
            }
        }
    } else {
        assert(all == seq![a]);
    }
}

} // verus!
