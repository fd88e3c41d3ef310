//! Items and the cooldown between two uses of a tool or weapon.

use vstd::prelude::*;

verus! {

/// The closed set of item types.
#[derive(Debug, Clone, Copy, PartialEq, Eq, Structural)]
pub enum ItemType {
    DebugMiner,
}

/// A number of items of one type.
#[derive(Debug, Clone, Copy, PartialEq, Eq, Structural)]
pub struct ItemStack {
    pub item: ItemType,
    pub stack_size: usize,
}

/// The static properties of an item type.
#[derive(Debug, Clone, Copy, PartialEq, Eq, Structural)]
pub struct ItemProperties {
    /// The number of ticks that have to pass between two uses.
    pub use_time: usize,
}

impl ItemType {
    pub open spec fn spec_properties(self) -> ItemProperties {
        match self {
            ItemType::DebugMiner => DebugMiner::spec_properties(),
        }
    }

    pub fn properties(self) -> (r: ItemProperties)
        ensures
            r == self.spec_properties(),
    {
        match self {
            ItemType::DebugMiner => DebugMiner::properties(),
        }
    }
}

/// A tool that removes the block that it points at, without any cooldown.
#[derive(Debug, Clone, Copy)]
pub struct DebugMiner;

impl DebugMiner {
    pub open spec fn spec_properties() -> ItemProperties {
        ItemProperties { use_time: 0 }
    }

    pub fn properties() -> (r: ItemProperties)
        ensures
            r == Self::spec_properties(),
    {
        ItemProperties { use_time: 0 }
    }

    pub fn item_type() -> (r: ItemType)
        ensures
            r == ItemType::DebugMiner,
    {
        ItemType::DebugMiner
    }
}

/// What a cooldown holds.
pub struct WeaponUseTimeView {
    /// The number of ticks between two uses.
    pub use_time: nat,
    /// The number of ticks until the next use is possible.
    pub remaining_cooldown_time: nat,
    /// True while the holder tries to use the weapon.
    pub currently_using: bool,
}

impl WeaponUseTimeView {
    /// True if a tick uses the weapon: the cooldown has run out and the
    /// holder tries to use it.
    pub open spec fn fires(self) -> bool {
        self.remaining_cooldown_time == 0 && self.currently_using
    }

    /// The cooldown after a tick: a running cooldown goes down by one; a
    /// use starts it again at the use time; else nothing changes.
    pub open spec fn tick(self) -> WeaponUseTimeView {
        if self.remaining_cooldown_time > 0 {
            WeaponUseTimeView {
                use_time: self.use_time,
                remaining_cooldown_time: (self.remaining_cooldown_time - 1) as nat,
                currently_using: self.currently_using,
            }
        } else if self.currently_using {
            WeaponUseTimeView {
                use_time: self.use_time,
                remaining_cooldown_time: self.use_time,
                currently_using: self.currently_using,
            }
        } else {
            self
        }
    }

    /// The cooldown after `n` ticks.
    pub open spec fn ticks(self, n: nat) -> WeaponUseTimeView
        decreases n,
    {
        if n == 0 {
            self
        } else {
            self.tick().ticks((n - 1) as nat)
        }
    }

    /// After a use, none of the next `use_time` ticks uses the weapon
    /// again.
    pub proof fn lemma_cooldown_after_use(self, n: nat)
        requires
            self.fires(),
            n < self.use_time,
        ensures
            !self.tick().ticks(n).fires(),
    {
        Self::lemma_running_cooldown(self.tick(), n);
    }

    /// While a cooldown runs, each tick takes one off it and uses nothing.
    pub proof fn lemma_running_cooldown(start: WeaponUseTimeView, n: nat)
        requires
            n < start.remaining_cooldown_time,
        ensures
            start.ticks(n).remaining_cooldown_time == start.remaining_cooldown_time - n,
            start.ticks(n).use_time == start.use_time,
            start.ticks(n).currently_using == start.currently_using,
            !start.ticks(n).fires(),
        decreases n,
    {
        if n > 0 {
            Self::lemma_running_cooldown(start.tick(), (n - 1) as nat);
        }
    }
}

/// The cooldown of a tool or weapon.
#[derive(Debug)]
pub struct WeaponUseTime {
    use_time: usize,
    remaining_cooldown_time: usize,
    currently_using: bool,
}

impl View for WeaponUseTime {
    type V = WeaponUseTimeView;

    closed spec fn view(&self) -> WeaponUseTimeView {
        WeaponUseTimeView {
            use_time: self.use_time as nat,
            remaining_cooldown_time: self.remaining_cooldown_time as nat,
            currently_using: self.currently_using,
        }
    }
}

impl WeaponUseTime {
    /// A cooldown of `use_time` ticks that starts out running.
    pub fn from_use_time(use_time: usize) -> (r: Self)
        ensures
            r@ == (WeaponUseTimeView {
                use_time: use_time as nat,
                remaining_cooldown_time: use_time as nat,
                currently_using: false,
            }),
    {
        WeaponUseTime { use_time, remaining_cooldown_time: use_time, currently_using: false }
    }

    /// True while the holder tries to use the weapon.
    pub fn currently_using(&self) -> (r: bool)
        ensures
            r == self@.currently_using,
    {
        self.currently_using
    }

    /// Says whether the holder tries to use the weapon.
    pub fn set_currently_using(&mut self, currently_using: bool)
        ensures
            final(self)@ == (WeaponUseTimeView {
                use_time: old(self)@.use_time,
                remaining_cooldown_time: old(self)@.remaining_cooldown_time,
                currently_using,
            }),
    {
        self.currently_using = currently_using;
    }

    /// One tick of the cooldown. Returns `true` if the weapon is used in
    /// this tick.
    pub fn try_use(&mut self) -> (r: bool)
        ensures
            r == old(self)@.fires(),
            final(self)@ == old(self)@.tick(),
    {
        if self.remaining_cooldown_time > 0 {
            self.remaining_cooldown_time = self.remaining_cooldown_time - 1;
            false
        } else if self.currently_using {
            self.remaining_cooldown_time = self.use_time;
            true
        } else {
            false
        }
    }
}

} // verus!
