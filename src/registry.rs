//! The module registry: a fixed table of loaded modules, filled once by the
//! loader before any lazy call. A slot whose dynamic address is zero is a
//! sentinel: it is both a free slot and the end of the live entries.
use vstd::prelude::*;

verus! {

/// Slots in the table: one page of 16-byte entries.
pub const MODULE_SLOTS: usize = 256;

/// One loaded module: its load base and the address of its dynamic section.
#[derive(Clone, Copy, Debug, PartialEq, Eq, Structural)]
pub struct ModuleEntry {
    pub base: u64,
    pub dynamic: u64,
}

impl ModuleEntry {
    pub open spec fn is_sentinel(self) -> bool {
        self.dynamic == 0
    }
}

/// The number of live entries: those before the first sentinel.
pub open spec fn is_live_len(s: Seq<ModuleEntry>, n: int) -> bool {
    &&& 0 <= n <= s.len()
    &&& forall|k: int| 0 <= k < n ==> !s[k].is_sentinel()
    &&& n == s.len() || s[n].is_sentinel()
}

pub struct Registry {
    entries: Vec<ModuleEntry>,
}

impl View for Registry {
    type V = Seq<ModuleEntry>;

    closed spec fn view(&self) -> Seq<ModuleEntry> {
        self.entries@
    }
}

impl Registry {
    pub open spec fn wf(&self) -> bool {
        self@.len() == MODULE_SLOTS
    }

    /// A table of sentinels only.
    pub fn new() -> (r: Registry)
        ensures
            r.wf(),
            forall|k: int| 0 <= k < MODULE_SLOTS ==> r@[k] == (ModuleEntry { base: 0, dynamic: 0 }),
    {
        let mut entries: Vec<ModuleEntry> = Vec::new();
        let mut i: usize = 0;
        while i < MODULE_SLOTS
            invariant
                i <= MODULE_SLOTS,
                entries@.len() == i,
                forall|k: int| 0 <= k < i ==> entries@[k] == (ModuleEntry { base: 0, dynamic: 0 }),
            decreases MODULE_SLOTS - i,
        {
            entries.push(ModuleEntry { base: 0, dynamic: 0 });
            i = i + 1;
        }
        Registry { entries }
    }

    /// Writes slot `index`.
    pub fn register(&mut self, index: usize, base: u64, dynamic: u64)
        requires
            old(self).wf(),
            index < MODULE_SLOTS,
        ensures
            final(self).wf(),
            final(self)@ == old(self)@.update(index as int, ModuleEntry { base, dynamic }),
    {
        self.entries.set(index, ModuleEntry { base, dynamic });
    }

    /// Reads slot `index`.
    pub fn lookup(&self, index: usize) -> (r: ModuleEntry)
        requires
            self.wf(),
            index < MODULE_SLOTS,
        ensures
            r == self@[index as int],
    {
        self.entries[index]
    }

    /// How many entries come before the first sentinel.
    pub fn live_count(&self) -> (r: usize)
        ensures
            is_live_len(self@, r as int),
    {
        let mut i: usize = 0;
        while i < self.entries.len() && self.entries[i].dynamic != 0
            invariant
                i <= self@.len(),
                forall|k: int| 0 <= k < i ==> !self@[k].is_sentinel(),
            decreases self@.len() - i,
        {
            i = i + 1;
        }
        i
    }

    /// The live entries, in slot order.
    pub fn live_entries(&self) -> (r: Vec<ModuleEntry>)
        ensures
            exists|n: int| is_live_len(self@, n) && r@ == self@.subrange(0, n),
    {
        let n = self.live_count();
        let mut out: Vec<ModuleEntry> = Vec::new();
        let mut i: usize = 0;
        while i < n
            invariant
                is_live_len(self@, n as int),
                i <= n,
                out@ == self@.subrange(0, i as int),
            decreases n - i,
        {
            out.push(self.entries[i]);
            assert(out@ =~= self@.subrange(0, i + 1));
            i = i + 1;
        }
        out
    }
}

} // verus!
