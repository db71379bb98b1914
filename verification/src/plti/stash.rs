//! Replacing a read-only page range by a private copy, and taking that back
//! half-way if a step fails.
use vstd::prelude::*;

verus! {

/// The steps of replacing a page range. `backup` is the place that was
/// reserved for the original.
#[derive(Clone, Copy, Debug, PartialEq, Eq, Structural)]
pub enum StashPhase {
    /// Find out whether the range is anonymous already.
    Ask,
    /// Reserve a place at the proposed address.
    ReserveThere,
    /// Reserve a place anywhere.
    ReserveAnywhere,
    /// Move the original to the reserved place.
    MoveAway { backup: usize },
    /// Map fresh memory where the original was.
    MapFresh { backup: usize },
    /// Copy the original into the fresh memory.
    CopyOver { backup: usize },
    /// Move the original back.
    MoveBack { backup: usize },
    /// Give the reserved place up.
    GiveUp { backup: usize },
    /// The slot can be written; the original is at `kept`, if it was
    /// moved.
    Ready { kept: Option<usize> },
    /// The slot cannot be written.
    Failed,
}

/// The phase that follows one that succeeded or not; `addr` is the place that
/// was reserved.
pub open spec fn stash_next(phase: StashPhase, ok: bool, addr: usize) -> StashPhase {
    match phase {
        StashPhase::Ask => if ok {
            StashPhase::Ready { kept: None }
        } else {
            StashPhase::ReserveThere
        },
        StashPhase::ReserveThere => if ok {
            StashPhase::MoveAway { backup: addr }
        } else {
            StashPhase::ReserveAnywhere
        },
        StashPhase::ReserveAnywhere => if ok {
            StashPhase::MoveAway { backup: addr }
        } else {
            StashPhase::Failed
        },
        StashPhase::MoveAway { backup } => if ok {
            StashPhase::MapFresh { backup }
        } else {
            StashPhase::GiveUp { backup }
        },
        StashPhase::MapFresh { backup } => if ok {
            StashPhase::CopyOver { backup }
        } else {
            StashPhase::MoveBack { backup }
        },
        StashPhase::CopyOver { backup } => StashPhase::Ready { kept: Some(backup) },
        StashPhase::MoveBack { backup } => StashPhase::GiveUp { backup },
        StashPhase::GiveUp { backup } => StashPhase::Failed,
        StashPhase::Ready { kept } => phase,
        StashPhase::Failed => phase,
    }
}

/// The next phase of replacing a page range.
pub fn stash_vma(phase: StashPhase, ok: bool, addr: usize) -> (r: StashPhase)
    ensures
        r == stash_next(phase, ok, addr),
{
    match phase {
        StashPhase::Ask => if ok {
            StashPhase::Ready { kept: None }
        } else {
            StashPhase::ReserveThere
        },
        StashPhase::ReserveThere => if ok {
            StashPhase::MoveAway { backup: addr }
        } else {
            StashPhase::ReserveAnywhere
        },
        StashPhase::ReserveAnywhere => if ok {
            StashPhase::MoveAway { backup: addr }
        } else {
            StashPhase::Failed
        },
        StashPhase::MoveAway { backup } => if ok {
            StashPhase::MapFresh { backup }
        } else {
            StashPhase::GiveUp { backup }
        },
        StashPhase::MapFresh { backup } => if ok {
            StashPhase::CopyOver { backup }
        } else {
            StashPhase::MoveBack { backup }
        },
        StashPhase::CopyOver { backup } => StashPhase::Ready { kept: Some(backup) },
        StashPhase::MoveBack { backup } => StashPhase::GiveUp { backup },
        StashPhase::GiveUp { backup } => StashPhase::Failed,
        StashPhase::Ready { kept } => StashPhase::Ready { kept },
        StashPhase::Failed => StashPhase::Failed,
    }
}

/// What a page range holds.
#[derive(Clone, Copy, Debug, PartialEq, Eq, Structural)]
pub enum RangeState {
    /// The original pages.
    Original,
    /// Private pages with the same contents.
    Copied,
    /// Fresh memory.
    Fresh,
    /// Nothing.
    Nothing,
}

/// The two page ranges: where the library wants its pages, and the place that
/// was reserved, if any.
#[derive(Clone, Copy, Debug, PartialEq, Eq, Structural)]
pub struct Ranges {
    /// The range of the library.
    pub home: RangeState,
    /// The reserved range: whether it is reserved, and what it holds.
    pub reserved: bool,
    /// What the reserved range holds.
    pub away: RangeState,
}

/// What a phase does to the ranges when it succeeds; when it fails it leaves
/// them alone.
pub open spec fn effect(phase: StashPhase, ok: bool, w: Ranges) -> Ranges {
    if !ok {
        w
    } else {
        match phase {
            StashPhase::ReserveThere => Ranges { reserved: true, ..w },
            StashPhase::ReserveAnywhere => Ranges { reserved: true, ..w },
            StashPhase::MoveAway { backup } => Ranges {
                home: RangeState::Nothing,
                away: w.home,
                ..w
            },
            StashPhase::MapFresh { backup } => Ranges { home: RangeState::Fresh, ..w },
            StashPhase::CopyOver { backup } => Ranges {
                home: if w.away == RangeState::Original {
                    RangeState::Copied
                } else {
                    w.home
                },
                ..w
            },
            StashPhase::MoveBack { backup } => Ranges {
                home: w.away,
                away: RangeState::Nothing,
                ..w
            },
            StashPhase::GiveUp { backup } => Ranges {
                reserved: false,
                away: RangeState::Nothing,
                ..w
            },
            _ => w,
        }
    }
}

/// What the ranges look like in each phase.
pub open spec fn expected(phase: StashPhase) -> Ranges {
    let untouched = Ranges {
        home: RangeState::Original,
        reserved: false,
        away: RangeState::Nothing,
    };
    match phase {
        StashPhase::MoveAway { backup } => Ranges { reserved: true, ..untouched },
        StashPhase::GiveUp { backup } => Ranges { reserved: true, ..untouched },
        StashPhase::MapFresh { backup } => Ranges {
            home: RangeState::Nothing,
            reserved: true,
            away: RangeState::Original,
        },
        StashPhase::MoveBack { backup } => Ranges {
            home: RangeState::Nothing,
            reserved: true,
            away: RangeState::Original,
        },
        StashPhase::CopyOver { backup } => Ranges {
            home: RangeState::Fresh,
            reserved: true,
            away: RangeState::Original,
        },
        StashPhase::Ready { kept: Some(b) } => Ranges {
            home: RangeState::Copied,
            reserved: true,
            away: RangeState::Original,
        },
        _ => untouched,
    }
}

/// Each step leads from the expected state of the ranges to the expected
/// state of the next phase, given that the steps that take something back and
/// the copying succeed. So a replacement that fails leaves the original where
/// it was and nothing reserved, and one that succeeds leaves a copy in its
/// place and the original at the reserved one.
pub proof fn law_failed_stash_leaves_no_trace(phase: StashPhase, ok: bool, addr: usize)
    requires
        phase is MoveBack || phase is GiveUp || phase is CopyOver ==> ok,
    ensures
        effect(phase, ok, expected(phase)) == expected(stash_next(phase, ok, addr)),
        expected(StashPhase::Failed) == expected(StashPhase::Ask),
{
}

/// A range is replaced step by step, each step reached only from the one that it
/// needs: pages that are private already need nothing; the original is moved
/// away only to a place that was reserved, and everything that follows is about
/// that place.
pub proof fn law_stash_order(phase: StashPhase, ok: bool, addr: usize)
    ensures
        ({
            let next = stash_next(phase, ok, addr);
            &&& next != StashPhase::Ask
            &&& next == StashPhase::ReserveThere <==> phase == StashPhase::Ask && !ok
            &&& next == StashPhase::ReserveAnywhere <==> phase == StashPhase::ReserveThere && !ok
            &&& next is MoveAway <==> ok && (phase == StashPhase::ReserveThere || phase
                == StashPhase::ReserveAnywhere)
            &&& next is MoveAway ==> next == (StashPhase::MoveAway { backup: addr })
            &&& next is MapFresh <==> ok && phase is MoveAway
            &&& next is MapFresh ==> next->MapFresh_backup == phase->MoveAway_backup
            &&& next is CopyOver <==> ok && phase is MapFresh
            &&& next is CopyOver ==> next->CopyOver_backup == phase->MapFresh_backup
            &&& next is MoveBack <==> !ok && phase is MapFresh
            &&& next is MoveBack ==> next->MoveBack_backup == phase->MapFresh_backup
            &&& next is GiveUp <==> (!ok && phase is MoveAway) || phase is MoveBack
            &&& next is GiveUp && phase is MoveAway ==> next->GiveUp_backup
                == phase->MoveAway_backup
            &&& next is GiveUp && phase is MoveBack ==> next->GiveUp_backup
                == phase->MoveBack_backup
            &&& !(phase is Ready) && next is Ready ==> (phase == StashPhase::Ask && ok && next == (
            StashPhase::Ready { kept: None })) || (phase is CopyOver && next == (
            StashPhase::Ready { kept: Some(phase->CopyOver_backup) }))
            &&& !(phase is Failed) && next is Failed ==> phase is GiveUp || (phase
                == StashPhase::ReserveAnywhere && !ok)
            &&& phase is Ready || phase is Failed ==> next == phase
        }),
{
}

} // verus!
