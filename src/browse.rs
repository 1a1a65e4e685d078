//! Paging an operator through candidate users one at a time, with the
//! controls to move on or to ban or pardon the user shown.
use vstd::prelude::*;

verus! {

/// A control under the user shown.
#[derive(Clone, Copy, Debug, PartialEq, Eq, Structural)]
pub enum Control {
    Previous,
    Next,
    Pardon,
    Ban,
}

/// The controls for entry `index` of `len`: the moves that stay in range,
/// then pardon for a banned user or ban for one who is not; neither where the
/// user's membership could not be looked up.
pub open spec fn controls_for(index: int, len: int, banned: Option<bool>) -> Seq<Control> {
    let back = if index > 0 {
        seq![Control::Previous]
    } else {
        Seq::empty()
    };
    let forward = if index + 1 < len {
        seq![Control::Next]
    } else {
        Seq::empty()
    };
    let act = match banned {
        Some(true) => seq![Control::Pardon],
        Some(false) => seq![Control::Ban],
        None => Seq::empty(),
    };
    back + forward + act
}

/// The controls to show for entry `index` of `len`.
pub fn controls(index: usize, len: usize, banned: Option<bool>) -> (r: Vec<Control>)
    ensures
        r@ == controls_for(index as int, len as int, banned),
{
    let mut r: Vec<Control> = Vec::new();
    if index > 0 {
        r.push(Control::Previous);
    }
    if index < len && len - index > 1 {
        r.push(Control::Next);
    }
    match banned {
        Some(true) => r.push(Control::Pardon),
        Some(false) => r.push(Control::Ban),
        None => {},
    }
    assert(r@ =~= controls_for(index as int, len as int, banned));
    r
}

/// What follows a press of a control.
#[derive(Clone, Copy, Debug, PartialEq, Eq, Structural)]
pub enum BrowseStep {
    /// Show the entry at this index.
    Show(usize),
    /// Pardon the user of the entry at this index; browsing ends.
    Pardon(usize),
    /// Ban the user of the entry at this index; browsing ends.
    Ban(usize),
    /// The control does not apply here; nothing changes.
    Ignore,
}

/// Browsing `len` entries, showing one of them.
pub struct Browser {
    pub index: usize,
    pub len: usize,
    pub done: bool,
}

impl Browser {
    /// Browsing `len` entries that shows the first; `None` where there are
    /// none to show.
    pub fn new(len: usize) -> (r: Option<Browser>)
        ensures
            len == 0 ==> r is None,
            len > 0 ==> r == Some(Browser { index: 0, len, done: false }),
    {
        if len == 0 {
            None
        } else {
            Some(Browser { index: 0, len, done: false })
        }
    }

    /// Take a press of `c`.
    pub fn press(&mut self, c: Control) -> (r: BrowseStep)
        ensures
            old(self).done ==> r == BrowseStep::Ignore && *final(self) == *old(self),
            !old(self).done ==> match c {
                Control::Previous => if old(self).index > 0 {
                    r == BrowseStep::Show((old(self).index - 1) as usize) && *final(self) == Browser {
                        index: (old(self).index - 1) as usize,
                        ..*old(self)
                    }
                } else {
                    r == BrowseStep::Ignore && *final(self) == *old(self)
                },
                Control::Next => if old(self).index + 1 < old(self).len {
                    r == BrowseStep::Show((old(self).index + 1) as usize) && *final(self) == Browser {
                        index: (old(self).index + 1) as usize,
                        ..*old(self)
                    }
                } else {
                    r == BrowseStep::Ignore && *final(self) == *old(self)
                },
                Control::Pardon => r == BrowseStep::Pardon(old(self).index) && *final(self)
                    == Browser { done: true, ..*old(self) },
                Control::Ban => r == BrowseStep::Ban(old(self).index) && *final(self) == Browser {
                    done: true,
                    ..*old(self)
                },
            },
    {
        if self.done {
            return BrowseStep::Ignore;
        }
        match c {
            Control::Previous => if self.index > 0 {
                self.index = self.index - 1;
                BrowseStep::Show(self.index)
            } else {
                BrowseStep::Ignore
            },
            Control::Next => if self.index < self.len && self.len - self.index > 1 {
                self.index = self.index + 1;
                BrowseStep::Show(self.index)
            } else {
                BrowseStep::Ignore
            },
            Control::Pardon => {
                self.done = true;
                BrowseStep::Pardon(self.index)
            },
            Control::Ban => {
                self.done = true;
                BrowseStep::Ban(self.index)
            },
        }
    }
}

} // verus!
