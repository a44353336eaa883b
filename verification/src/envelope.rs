//! What an envelope on a `total` window holds, as the components read it.

use vstd::prelude::*;

verus! {

/// One envelope of a `total` window.
///
/// The host hands each envelope over as a frame that may fail to decode; a
/// decoded one carries a body, and `total` is what reading that body as a
/// `brenn.demo.total@1` gave: the number, or `None` for a body that is not of
/// that doctype.
#[derive(Debug, PartialEq, Eq)]
pub enum TotalEnvelope {
    /// The envelope frame itself could not be read; the host's reason.
    Undecodable(String),
    /// A decoded envelope: its body, and the total it carries if it is one.
    Body { body: String, total: Option<u64> },
}

/// Why the last envelope of a `total` window gave no number.
#[derive(Debug, PartialEq, Eq)]
pub enum TotalError {
    /// The envelope frame could not be read; the host's reason.
    Undecodable(String),
    /// The body is not a `brenn.demo.total@1`; the body as delivered.
    NotATotal { body: String },
}

/// The doctype of the bodies on `total`.
pub open spec fn total_doctype() -> Seq<char> {
    "brenn.demo.total@1"@
}

/// The name of the doctype the bodies on `total` carry, for refusals.
pub fn doctype() -> (d: &'static str)
    ensures
        d@ == total_doctype(),
{
    "brenn.demo.total@1"
}

/// What one envelope gives when it is the one read.
pub open spec fn read_envelope(e: TotalEnvelope) -> Result<u64, TotalError> {
    match e {
        TotalEnvelope::Undecodable(reason) => Err(TotalError::Undecodable(reason)),
        TotalEnvelope::Body { body, total } => match total {
            Some(t) => Ok(t),
            None => Err(TotalError::NotATotal { body }),
        },
    }
}

/// The last total in a sequence of envelopes: zero where there is none,
/// because nothing has been published yet.
pub open spec fn latest_of(envelopes: Seq<TotalEnvelope>) -> Result<u64, TotalError> {
    if envelopes.len() == 0 {
        Ok(0)
    } else {
        read_envelope(envelopes.last())
    }
}

impl TotalEnvelope {
    /// Reads this envelope as a total.
    pub fn read(&self) -> (r: Result<u64, TotalError>)
        ensures
            r == read_envelope(*self),
    {
        match self {
            TotalEnvelope::Undecodable(reason) => Err(TotalError::Undecodable(reason.clone())),
            TotalEnvelope::Body { body, total } => match total {
                Some(t) => Ok(*t),
                None => Err(TotalError::NotATotal { body: body.clone() }),
            },
        }
    }
}

/// The last total of a window, whether the host offered it as context or as
/// new: the context comes first and the new envelopes after it, and the last
/// of them all is the one read. Zero where the window is empty.
pub fn latest_total(context: &Vec<TotalEnvelope>, new: &Vec<TotalEnvelope>) -> (r: Result<
    u64,
    TotalError,
>)
    ensures
        r == latest_of(context@ + new@),
{
    let all: Ghost<Seq<TotalEnvelope>> = Ghost(context@ + new@);
    if new.len() > 0 {
        assert(all@.last() == new@.last());
        new[new.len() - 1].read()
    } else if context.len() > 0 {
        assert(all@ =~= context@);
        context[context.len() - 1].read()
    } else {
        assert(all@.len() == 0);
        Ok(0)
    }
}

/// The last envelope alone decides what a window reads: a decoded body that
/// carries a total reads as that total, whatever it is (zero included); a body
/// of another doctype is refused naming the body; an unreadable frame is
/// refused with its reason; and a window with no envelope reads zero.
pub proof fn the_last_envelope_decides(envelopes: Seq<TotalEnvelope>)
    ensures
        envelopes.len() == 0 ==> latest_of(envelopes) == Ok::<u64, TotalError>(0),
        envelopes.len() > 0 ==> match envelopes.last() {
            TotalEnvelope::Body { body, total: Some(t) } => latest_of(envelopes) == Ok::<
                u64,
                TotalError,
            >(t),
            TotalEnvelope::Body { body, total: None } => latest_of(envelopes) == Err::<
                u64,
                TotalError,
            >(TotalError::NotATotal { body }),
            TotalEnvelope::Undecodable(reason) => latest_of(envelopes) == Err::<u64, TotalError>(
                TotalError::Undecodable(reason),
            ),
        },
{
}

/// Where the last envelope stands makes no difference: splitting the same
/// envelopes at any point into context and new gives the same total.
pub proof fn latest_ignores_the_split(envelopes: Seq<TotalEnvelope>, at: int)
    requires
        0 <= at <= envelopes.len(),
    ensures
        latest_of(envelopes.take(at) + envelopes.skip(at)) == latest_of(envelopes),
{
    assert(envelopes.take(at) + envelopes.skip(at) =~= envelopes);
}

} // verus!
