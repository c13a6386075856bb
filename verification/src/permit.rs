//! Who may change the cluster, and when nobody may.
//!
//! A change asks the mutation gate before it waits for a slot and enters once it has one. A
//! closed gate lets nobody in, so the number of changes under way can only fall: once
//! it is zero, every change that was let in has been written down.

use vstd::prelude::*;

verus! {

/// Why a change was not let in.
#[derive(Debug, Clone, Copy, PartialEq, Eq, Structural)]
pub enum GateRefusal {
    /// The mutation gate was closed.
    Closed,
    /// The mutation gate was closed while the change waited for a slot.
    ClosedWhileWaiting,
}

impl GateRefusal {
    /// The refusal in words.
    pub fn message(&self) -> (r: &'static str)
        ensures
            r@ == match *self {
                GateRefusal::Closed => "Mutation gate is closed (pausing or paused)"@,
                GateRefusal::ClosedWhileWaiting => {
                    "Mutation gate closed during permit acquisition"@
                },
            },
    {
        match self {
            GateRefusal::Closed => "Mutation gate is closed (pausing or paused)",
            GateRefusal::ClosedWhileWaiting => "Mutation gate closed during permit acquisition",
        }
    }
}

/// The mutation gate, with the number of changes under way.
#[derive(Debug, Clone, Copy, PartialEq, Eq, Structural)]
pub struct Gate {
    pub open: bool,
    pub held: u32,
    pub max_permits: u32,
}

/// No more changes are under way than there are slots.
pub open spec fn gate_fits(g: Gate) -> bool {
    g.held <= g.max_permits
}

/// The mutation gate after a change with a slot asks to come in.
pub open spec fn entered(g: Gate) -> Gate {
    if g.open {
        Gate { held: (g.held + 1) as u32, ..g }
    } else {
        g
    }
}

/// The mutation gate after a change was written down.
pub open spec fn left(g: Gate) -> Gate {
    Gate { held: (g.held - 1) as u32, ..g }
}

impl Gate {
    /// An open gate with so many slots.
    pub fn new(max_concurrent: u32) -> (r: Gate)
        ensures
            r == (Gate { open: true, held: 0, max_permits: max_concurrent }),
            gate_fits(r),
    {
        Gate { open: true, held: 0, max_permits: max_concurrent }
    }

    /// Whether a change may wait for a slot.
    pub fn ask(&self) -> (r: Result<(), GateRefusal>)
        ensures
            r == if self.open {
                Ok::<(), GateRefusal>(())
            } else {
                Err(GateRefusal::Closed)
            },
    {
        if self.open {
            Ok(())
        } else {
            Err(GateRefusal::Closed)
        }
    }

    /// Lets a change in that has a slot, unless the mutation gate was closed meanwhile.
    pub fn enter(&mut self) -> (r: Result<(), GateRefusal>)
        requires
            old(self).held < old(self).max_permits,
        ensures
            r == if old(self).open {
                Ok::<(), GateRefusal>(())
            } else {
                Err(GateRefusal::ClosedWhileWaiting)
            },
            *final(self) == entered(*old(self)),
            gate_fits(*final(self)),
    {
        if self.open {
            self.held = self.held + 1;
            Ok(())
        } else {
            Err(GateRefusal::ClosedWhileWaiting)
        }
    }

    /// Takes note that a change was written down.
    pub fn leave(&mut self)
        requires
            old(self).held > 0,
        ensures
            *final(self) == left(*old(self)),
            gate_fits(*old(self)) ==> gate_fits(*final(self)),
    {
        self.held = self.held - 1;
    }

    /// Closes the mutation gate. Changes under way go on.
    pub fn close(&mut self)
        ensures
            *final(self) == (Gate { open: false, ..*old(self) }),
    {
        self.open = false;
    }

    /// Opens the mutation gate again.
    pub fn reopen(&mut self)
        ensures
            *final(self) == (Gate { open: true, ..*old(self) }),
    {
        self.open = true;
    }

    /// Whether the mutation gate is open.
    pub fn is_open(&self) -> (r: bool)
        ensures
            r == self.open,
    {
        self.open
    }

    /// Whether the mutation gate is closed and no change is under way.
    pub fn is_drained(&self) -> (r: bool)
        ensures
            r == (!self.open && self.held == 0),
    {
        !self.open && self.held == 0
    }
}

/// While the mutation gate is closed the number of changes under way never grows; once none
/// is under way, none comes in until the mutation gate is opened.
pub proof fn law_closed_gate_only_drains(g: Gate)
    requires
        !g.open,
    ensures
        entered(g) == g,
        g.held > 0 ==> left(g).held == g.held - 1 && !left(g).open,
        g.held == 0 ==> entered(g).held == 0,
{
}

/// A change that comes in and is written down leaves the mutation gate as it was.
pub proof fn law_permit_is_given_back(g: Gate)
    requires
        g.open,
        g.held < g.max_permits,
    ensures
        left(entered(g)) == g,
{
}

/// A change comes in exactly while the mutation gate is open, and is then one more under
/// way; opening, closing and the number of slots are not touched by it.
pub proof fn law_change_comes_in(g: Gate)
    requires
        g.held < g.max_permits,
    ensures
        g.open ==> entered(g).held == g.held + 1,
        !g.open ==> entered(g).held == g.held,
        entered(g).open == g.open,
        entered(g).max_permits == g.max_permits,
        gate_fits(entered(g)),
{
}

} // verus!
