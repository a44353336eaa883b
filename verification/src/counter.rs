//! The placement-agnostic half of the demo: a running click total.
//!
//! It keeps no state of its own. The total it last published is the retained
//! message on its `total` port, read back at the top of the next activation
//! and added to the count of new clicks, so what it publishes is a function of
//! the activation's windows alone.

use vstd::prelude::*;
use vstd::string::*;

use crate::body::{decimal, decimal_text, total_body, total_body_text};
use crate::envelope::{latest_of, latest_total, TotalEnvelope, TotalError};

verus! {

/// One window of an activation, by the input port it belongs to.
#[derive(Debug, PartialEq, Eq)]
pub enum CounterWindow {
    /// A window on `clicks`: how many new envelopes it carries. Each is one
    /// click; their bodies are not read.
    Clicks { count: usize },
    /// A window on `total`: the retained total, as context and as new.
    Total { context: Vec<TotalEnvelope>, new: Vec<TotalEnvelope> },
    /// A window on a port the specification does not name; the refusal the
    /// port surface gave for it.
    Unknown { refusal: String },
}

/// Why an activation fails.
#[derive(Debug, PartialEq, Eq)]
pub enum CounterError {
    /// A window on a port the specification does not name.
    UnknownPort(String),
    /// The `total` window's last envelope gave no number.
    Total(TotalError),
}

/// What an activation counted: the running total read back and the new
/// clicks.
#[derive(Debug, PartialEq, Eq)]
pub struct Tally {
    pub running: u64,
    pub clicks: u64,
}

/// The value published on `total`.
#[derive(Debug, PartialEq, Eq)]
pub struct Total {
    pub total: u64,
}

/// The clicks an activation offers, over every `clicks` window.
pub open spec fn clicks_offered(windows: Seq<CounterWindow>) -> nat
    decreases windows.len(),
{
    if windows.len() == 0 {
        0
    } else {
        clicks_offered(windows.drop_last()) + match windows.last() {
            CounterWindow::Clicks { count } => count as nat,
            _ => 0,
        }
    }
}

/// The activation's reading of its windows, in order: each `clicks` window
/// adds its new envelopes to the click count, each `total` window replaces the
/// running total with its latest, and the first window that fails fails the
/// activation.
pub open spec fn tally(windows: Seq<CounterWindow>) -> Result<(nat, nat), CounterError>
    decreases windows.len(),
{
    if windows.len() == 0 {
        Ok((0, 0))
    } else {
        match tally(windows.drop_last()) {
            Err(e) => Err(e),
            Ok((running, clicks)) => match windows.last() {
                CounterWindow::Clicks { count } => Ok((running, clicks + count as nat)),
                CounterWindow::Total { context, new } => match latest_of(context@ + new@) {
                    Ok(t) => Ok((t as nat, clicks)),
                    Err(e) => Err(CounterError::Total(e)),
                },
                CounterWindow::Unknown { refusal } => Err(CounterError::UnknownPort(refusal)),
            },
        }
    }
}

/// The activations whose arithmetic fits in a `u64`: the clicks offered, and
/// the running total plus the clicks where the activation succeeds.
pub open spec fn counter_fits(windows: Seq<CounterWindow>) -> bool {
    &&& clicks_offered(windows) <= u64::MAX
    &&& tally(windows) matches Ok((running, clicks)) ==> running + clicks <= u64::MAX
}

/// The narration of an activation: what it counted, on what.
pub open spec fn narration_text(running: nat, clicks: nat) -> Seq<char> {
    decimal(clicks) + " new click(s) on a running total of "@ + decimal(running)
}

/// Where the reading succeeds, the clicks counted are all the clicks offered.
pub proof fn lemma_tally_counts_every_click(windows: Seq<CounterWindow>)
    ensures
        tally(windows) matches Ok((running, clicks)) ==> clicks == clicks_offered(windows),
    decreases windows.len(),
{
    if windows.len() > 0 {
        lemma_tally_counts_every_click(windows.drop_last());
    }
}

/// The clicks a prefix offers are no more than the whole offers.
pub proof fn lemma_clicks_offered_grow(windows: Seq<CounterWindow>, n: int)
    requires
        0 <= n <= windows.len(),
    ensures
        clicks_offered(windows.take(n)) <= clicks_offered(windows),
    decreases windows.len() - n,
{
    if n < windows.len() {
        lemma_clicks_offered_grow(windows, n + 1);
        assert(windows.take(n + 1).drop_last() =~= windows.take(n));
    } else {
        assert(windows.take(n) =~= windows);
    }
}

/// The envelopes of the last `total` window, if there is one.
pub open spec fn last_total_window(windows: Seq<CounterWindow>) -> Option<Seq<TotalEnvelope>>
    decreases windows.len(),
{
    if windows.len() == 0 {
        None
    } else {
        match windows.last() {
            CounterWindow::Total { context, new } => Some(context@ + new@),
            _ => last_total_window(windows.drop_last()),
        }
    }
}

/// What a successful activation publishes is the total it read back from the
/// last `total` window (zero with no such window, or an empty one) plus every
/// new click: a component whose whole memory is a retained channel.
pub proof fn the_total_is_the_retained_total_plus_the_new_clicks(windows: Seq<CounterWindow>)
    ensures
        tally(windows) matches Ok((running, clicks)) ==> {
            &&& clicks == clicks_offered(windows)
            &&& running == match last_total_window(windows) {
                None => 0,
                Some(envelopes) => match latest_of(envelopes) {
                    Ok(t) => t as nat,
                    Err(_) => 0,
                },
            }
        },
    decreases windows.len(),
{
    lemma_tally_counts_every_click(windows);
    if windows.len() > 0 {
        the_total_is_the_retained_total_plus_the_new_clicks(windows.drop_last());
    }
}

/// Each window read after the others changes the reading in one way: a
/// `clicks` window adds its count to the clicks and keeps the running total;
/// a `total` window whose last envelope carries `t` (or that is empty, `t`
/// zero) replaces the running total with `t` and keeps the clicks; a window on
/// an unknown port refuses the activation with its refusal; and a reading
/// already refused stays refused the same way.
pub proof fn each_window_changes_the_reading(windows: Seq<CounterWindow>, w: CounterWindow)
    ensures
        tally(windows) is Err ==> tally(windows.push(w)) == tally(windows),
        tally(windows) matches Ok((running, clicks)) ==> match w {
            CounterWindow::Clicks { count } => tally(windows.push(w)) == Ok::<
                (nat, nat),
                CounterError,
            >((running, clicks + count as nat)),
            CounterWindow::Unknown { refusal } => tally(windows.push(w)) == Err::<
                (nat, nat),
                CounterError,
            >(CounterError::UnknownPort(refusal)),
            CounterWindow::Total { context, new } => {
                let all = context@ + new@;
                &&& all.len() == 0 ==> tally(windows.push(w)) == Ok::<(nat, nat), CounterError>(
                    (0, clicks),
                )
                &&& all.len() > 0 ==> (all.last() matches TotalEnvelope::Body {
                    total: Some(t),
                    ..
                } ==> tally(windows.push(w)) == Ok::<(nat, nat), CounterError>(
                    (t as nat, clicks),
                ))
            },
        },
{
    assert(windows.push(w).drop_last() =~= windows);
    match w {
        CounterWindow::Total { context, new } => {
            crate::envelope::the_last_envelope_decides(context@ + new@);
        },
        _ => {},
    }
}

/// A window the counter can read: a `clicks` window, or a `total` window that
/// is empty or whose last envelope is a decoded body carrying a total.
pub open spec fn readable(w: CounterWindow) -> bool {
    match w {
        CounterWindow::Clicks { .. } => true,
        CounterWindow::Total { context, new } => {
            let all = context@ + new@;
            all.len() == 0 || match all.last() {
                TotalEnvelope::Body { total, .. } => total is Some,
                _ => false,
            }
        },
        CounterWindow::Unknown { .. } => false,
    }
}

/// An activation whose windows can all be read is never refused: it counts
/// every click offered, on the total its last `total` window carries.
pub proof fn readable_activations_are_counted(windows: Seq<CounterWindow>)
    requires
        forall|i: int| 0 <= i < windows.len() ==> readable(#[trigger] windows[i]),
    ensures
        tally(windows) is Ok,
        tally(windows) matches Ok((running, clicks)) ==> clicks == clicks_offered(windows),
    decreases windows.len(),
{
    lemma_tally_counts_every_click(windows);
    if windows.len() > 0 {
        let init = windows.drop_last();
        assert forall|i: int| 0 <= i < init.len() implies readable(#[trigger] init[i]) by {
            assert(init[i] == windows[i]);
        }
        readable_activations_are_counted(init);
        assert(readable(windows[windows.len() - 1]));
        match windows.last() {
            CounterWindow::Total { context, new } => {
                crate::envelope::the_last_envelope_decides(context@ + new@);
            },
            _ => {},
        }
    }
}

/// Two windows the counter reads alike: the same window, or two `total`
/// windows carrying the same envelopes, split differently into context and
/// new.
pub open spec fn read_alike(a: CounterWindow, b: CounterWindow) -> bool {
    ||| a == b
    ||| match (a, b) {
        (
            CounterWindow::Total { context: c1, new: n1 },
            CounterWindow::Total { context: c2, new: n2 },
        ) => c1@ + n1@ == c2@ + n2@,
        _ => false,
    }
}

/// One artifact, two hostings: a host that offers the retained total as
/// context and one that offers it as news get the same reading, and so the
/// same publish.
pub proof fn hostings_that_window_the_total_differently_agree(
    a: Seq<CounterWindow>,
    b: Seq<CounterWindow>,
)
    requires
        a.len() == b.len(),
        forall|i: int| 0 <= i < a.len() ==> read_alike(#[trigger] a[i], b[i]),
    ensures
        tally(a) == tally(b),
        clicks_offered(a) == clicks_offered(b),
    decreases a.len(),
{
    if a.len() > 0 {
        assert forall|i: int| 0 <= i < a.drop_last().len() implies read_alike(
            #[trigger] a.drop_last()[i],
            b.drop_last()[i],
        ) by {
            assert(a.drop_last()[i] == a[i] && b.drop_last()[i] == b[i]);
        }
        hostings_that_window_the_total_differently_agree(a.drop_last(), b.drop_last());
        assert(read_alike(a[a.len() - 1], b[b.len() - 1]));
    }
}

/// The counter component.
pub struct DemoCounter;

impl DemoCounter {
    /// Reads one activation's windows: the running total is the latest total
    /// of the last `total` window (zero where none is offered or the window is
    /// empty), and the clicks are every new envelope on `clicks`.
    pub fn receive(windows: &Vec<CounterWindow>) -> (r: Result<Tally, CounterError>)
        requires
            clicks_offered(windows@) <= u64::MAX,
        ensures
            r is Ok <==> tally(windows@) is Ok,
            r matches Ok(t) ==> tally(windows@) == Ok::<(nat, nat), CounterError>(
                (t.running as nat, t.clicks as nat),
            ),
            r matches Err(e) ==> tally(windows@) == Err::<(nat, nat), CounterError>(e),
    {
        let mut running: u64 = 0;
        let mut clicks: u64 = 0;
        let mut i: usize = 0;
        while i < windows.len()
            invariant
                i <= windows.len(),
                clicks_offered(windows@) <= u64::MAX,
                tally(windows@.take(i as int)) == Ok::<(nat, nat), CounterError>(
                    (running as nat, clicks as nat),
                ),
            decreases windows.len() - i,
        {
            proof {
                assert(windows@.take(i + 1).drop_last() =~= windows@.take(i as int));
                assert(windows@.take(i + 1).last() == windows@[i as int]);
                lemma_tally_counts_every_click(windows@.take(i as int));
                lemma_clicks_offered_grow(windows@, i + 1);
            }
            match &windows[i] {
                CounterWindow::Clicks { count } => {
                    clicks = clicks + *count as u64;
                },
                CounterWindow::Total { context, new } => {
                    match latest_total(context, new) {
                        Ok(t) => {
                            running = t;
                        },
                        Err(e) => {
                            proof {
                                lemma_tally_failure_stays(windows@, i + 1);
                            }
                            return Err(CounterError::Total(e));
                        },
                    }
                },
                CounterWindow::Unknown { refusal } => {
                    proof {
                        lemma_tally_failure_stays(windows@, i + 1);
                    }
                    return Err(CounterError::UnknownPort(refusal.clone()));
                },
            }
            i = i + 1;
        }
        proof {
            assert(windows@.take(i as int) =~= windows@);
        }
        Ok(Tally { running, clicks })
    }

    /// Whether an activation's arithmetic fits: the test that stands before
    /// `receive` and `Tally::total`, where an overflow is a panic.
    pub fn fits(windows: &Vec<CounterWindow>) -> (b: bool)
        ensures
            b == counter_fits(windows@),
    {
        let mut offered: u64 = 0;
        let mut i: usize = 0;
        while i < windows.len()
            invariant
                i <= windows.len(),
                offered as nat == clicks_offered(windows@.take(i as int)),
            decreases windows.len() - i,
        {
            proof {
                assert(windows@.take(i + 1).drop_last() =~= windows@.take(i as int));
                assert(windows@.take(i + 1).last() == windows@[i as int]);
            }
            match &windows[i] {
                CounterWindow::Clicks { count } => {
                    if offered > u64::MAX - *count as u64 {
                        proof {
                            lemma_clicks_offered_grow(windows@, i + 1);
                        }
                        return false;
                    }
                    offered = offered + *count as u64;
                },
                _ => {},
            }
            i = i + 1;
        }
        proof {
            assert(windows@.take(i as int) =~= windows@);
        }
        match Self::receive(windows) {
            Ok(t) => t.running <= u64::MAX - t.clicks,
            Err(_) => true,
        }
    }
}

/// Once the reading of a prefix fails, the reading of the whole fails the
/// same way.
pub proof fn lemma_tally_failure_stays(windows: Seq<CounterWindow>, n: int)
    requires
        0 <= n <= windows.len(),
        tally(windows.take(n)) is Err,
    ensures
        tally(windows) == tally(windows.take(n)),
    decreases windows.len() - n,
{
    if n < windows.len() {
        assert(windows.take(n + 1).drop_last() =~= windows.take(n));
        lemma_tally_failure_stays(windows, n + 1);
    } else {
        assert(windows.take(n) =~= windows);
    }
}

impl Tally {
    /// The total to publish: the running total plus the new clicks.
    pub fn total(&self) -> (t: Total)
        requires
            self.running + self.clicks <= u64::MAX,
        ensures
            t.total == self.running + self.clicks,
    {
        Total { total: self.running + self.clicks }
    }

    /// The body published on `total` for this activation.
    pub fn body(&self) -> (b: String)
        requires
            self.running + self.clicks <= u64::MAX,
        ensures
            b@ == total_body_text((self.running + self.clicks) as nat),
    {
        total_body(self.running + self.clicks)
    }

    /// What the counter logs of an activation: how many new clicks, on what
    /// running total.
    pub fn narration(&self) -> (s: String)
        ensures
            s@ == narration_text(self.running as nat, self.clicks as nat),
    {
        let mut s = decimal_text(self.clicks);
        s.append(" new click(s) on a running total of ");
        let running = decimal_text(self.running);
        s.append(running.as_str());
        s
    }
}

} // verus!
