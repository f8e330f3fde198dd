use vstd::prelude::*;

verus! {

/// The purpose of a packet.
///
/// Each variant has a fixed one-byte representation, its position in the declaration:
/// `Sending` is 0, `Completed` 1, `Pulling` 2 and `Pulled` 3.
#[derive(Debug, Clone, Copy, PartialEq, Eq, Structural, PartialOrd, Ord, Hash)]
pub enum SyncSignal {
    /// Sending data package
    Sending,
    /// Completed sending data package
    Completed,
    /// Pulling data package
    Pulling,
    /// Pulled data package completed
    Pulled,
}

/// The byte that stands for `s` on the wire.
pub open spec fn repr_of(s: SyncSignal) -> u8 {
    match s {
        SyncSignal::Sending => 0,
        SyncSignal::Completed => 1,
        SyncSignal::Pulling => 2,
        SyncSignal::Pulled => 3,
    }
}

/// The variant that the byte `b` stands for, if any.
pub open spec fn signal_of(b: u8) -> Option<SyncSignal> {
    if b == 0 {
        Some(SyncSignal::Sending)
    } else if b == 1 {
        Some(SyncSignal::Completed)
    } else if b == 2 {
        Some(SyncSignal::Pulling)
    } else if b == 3 {
        Some(SyncSignal::Pulled)
    } else {
        None
    }
}

/// The variant that the byte `b` decodes to when unknown bytes fall back to `Sending`.
pub open spec fn lenient_signal_of(b: u8) -> SyncSignal {
    match signal_of(b) {
        Some(s) => s,
        None => SyncSignal::Sending,
    }
}

/// Every variant, in the order of their representations.
pub open spec fn all_signals() -> Seq<SyncSignal> {
    seq![SyncSignal::Sending, SyncSignal::Completed, SyncSignal::Pulling, SyncSignal::Pulled]
}

impl Default for SyncSignal {
    /// `Sending` is the default signal.
    fn default() -> (r: SyncSignal)
        ensures
            r == SyncSignal::Sending,
    {
        SyncSignal::Sending
    }
}

impl SyncSignal {
    /// The one-byte representation of this signal.
    pub fn repr(&self) -> (r: u8)
        ensures
            r == repr_of(*self),
    {
        match self {
            SyncSignal::Sending => 0,
            SyncSignal::Completed => 1,
            SyncSignal::Pulling => 2,
            SyncSignal::Pulled => 3,
        }
    }

    /// The signal represented by `b`, or `None` when `b` is above 3.
    pub fn from_repr(b: u8) -> (r: Option<SyncSignal>)
        ensures
            r == signal_of(b),
            r is Some <==> b <= 3,
    {
        match b {
            0 => Some(SyncSignal::Sending),
            1 => Some(SyncSignal::Completed),
            2 => Some(SyncSignal::Pulling),
            3 => Some(SyncSignal::Pulled),
            _ => None,
        }
    }

    /// The signal represented by `b`, with every byte above 3 read as `Sending`.
    pub fn from_repr_lenient(b: u8) -> (r: SyncSignal)
        ensures
            r == lenient_signal_of(b),
            b > 3 ==> r == SyncSignal::Sending,
    {
        match SyncSignal::from_repr(b) {
            Some(s) => s,
            None => SyncSignal::Sending,
        }
    }

    /// Every variant, in the order of their representations.
    pub fn all() -> (r: Vec<SyncSignal>)
        ensures
            r@ == all_signals(),
    {
        let r = vec![
            SyncSignal::Sending,
            SyncSignal::Completed,
            SyncSignal::Pulling,
            SyncSignal::Pulled,
        ];
        proof {
            assert(r@ =~= all_signals());
        }
        r
    }
}

/// A signal survives the trip through its byte: `from_repr(repr(s)) == Some(s)`.
pub proof fn lemma_repr_round_trip(s: SyncSignal)
    ensures
        signal_of(repr_of(s)) == Some(s),
        lenient_signal_of(repr_of(s)) == s,
{
}

} // verus!
