//! Write-once memory of the machine.
//!
//! Cells are created as they are first written, at any address. A cell once
//! written keeps its value for the whole run: writing it again with a
//! different value fails, and reading a cell never written gives `None`.
use crate::felt::Felt;
use vstd::prelude::*;

verus! {

/// What makes a run fail.
#[derive(Clone, Copy, PartialEq, Eq, Structural, Debug)]
pub enum CairoError {
    /// A flag pattern outside the instruction set, or a value that the
    /// instruction needs and that memory does not hold.
    InvalidInstruction,
    /// A write to a cell that holds a different value.
    MemoryInconsistency,
}

/// The values of field elements, as an option.
pub open spec fn opt_view(o: Option<Felt>) -> Option<nat> {
    match o {
        Some(x) => Some(x@),
        None => None,
    }
}

/// What reading address `a` of memory `m` gives.
pub open spec fn read_spec(m: Map<nat, nat>, a: nat) -> Option<nat> {
    if m.contains_key(a) {
        Some(m[a])
    } else {
        None
    }
}

/// Memory `m` after writing `x` at `a`, or the inconsistency that stops it.
pub open spec fn write_spec(m: Map<nat, nat>, a: nat, x: nat) -> Result<Map<nat, nat>, CairoError> {
    if m.contains_key(a) && m[a] != x {
        Err(CairoError::MemoryInconsistency)
    } else {
        Ok(m.insert(a, x))
    }
}

/// The values of a sequence of field elements.
pub open spec fn values(s: Seq<Felt>) -> Seq<nat> {
    s.map_values(|f: Felt| f@)
}

/// Memory holding `s[i]` at address `base + i`, and nothing else.
pub open spec fn loaded(s: Seq<nat>, base: nat) -> Map<nat, nat> {
    Map::new(|a: nat| base <= a < base + s.len(), |a: nat| s[a - base])
}

/// A sparse write-once memory.
pub struct CairoMemory {
    addrs: Vec<Felt>,
    vals: Vec<Felt>,
    cells: Ghost<Map<nat, nat>>,
}

impl View for CairoMemory {
    type V = Map<nat, nat>;

    closed spec fn view(&self) -> Map<nat, nat> {
        self.cells@
    }
}

impl CairoMemory {
    /// The stored pairs are exactly the cells of the view.
    pub closed spec fn wf(&self) -> bool {
        &&& self.addrs.len() == self.vals.len()
        &&& forall|i: int|
            0 <= i < self.addrs.len() ==> #[trigger] self.cells@.contains_key(self.addrs[i]@)
                && self.cells@[self.addrs[i]@] == self.vals[i]@
        &&& forall|a: nat|
            #[trigger] self.cells@.contains_key(a) ==> exists|i: int|
                0 <= i < self.addrs.len() && self.addrs[i]@ == a
    }

    /// Memory holding `words[i]` at address `base + i`.
    pub fn new_at(words: &Vec<Felt>, base: u64) -> (r: CairoMemory)
        requires
            base + words.len() <= u64::MAX,
        ensures
            r.wf(),
            r@ == loaded(values(words@), base as nat),
    {
        let ghost s = values(words@);
        let mut addrs: Vec<Felt> = Vec::new();
        let mut vals: Vec<Felt> = Vec::new();
        let mut i: usize = 0;
        while i < words.len()
            invariant
                base + words.len() <= u64::MAX,
                s == values(words@),
                i <= words.len(),
                addrs.len() == i,
                vals.len() == i,
                forall|j: int| 0 <= j < i ==> #[trigger] addrs[j]@ == base + j,
                forall|j: int| 0 <= j < i ==> #[trigger] vals[j]@ == s[j],
            decreases words.len() - i,
        {
            addrs.push(Felt::from_u64(base + i as u64));
            vals.push(words[i]);
            i = i + 1;
        }
        let ghost m = loaded(s, base as nat);
        assert forall|j: int| 0 <= j < addrs.len() implies #[trigger] m.contains_key(addrs[j]@)
            && m[addrs[j]@] == vals[j]@ by {
            assert(addrs[j]@ == base + j);
            assert(vals[j]@ == s[j]);
        }
        assert forall|a: nat| #[trigger] m.contains_key(a) implies exists|j: int|
            0 <= j < addrs.len() && addrs[j]@ == a by {
            assert(addrs[a - base]@ == a);
        }
        CairoMemory { addrs, vals, cells: Ghost(m) }
    }

    /// Memory holding a zero word at address 0 and `words[i]` at address `i + 1`.
    pub fn new(words: Vec<Felt>) -> (r: CairoMemory)
        requires
            words.len() < u64::MAX,
        ensures
            r.wf(),
            r@ == loaded(seq![0nat] + values(words@), 0),
    {
        let mut all: Vec<Felt> = Vec::new();
        all.push(Felt::zero());
        let mut rest = words;
        all.append(&mut rest);
        let r = CairoMemory::new_at(&all, 0);
        assert(values(all@) =~= seq![0nat] + values(words@));
        r
    }

    /// Where `addr` is stored, if it is.
    fn find(&self, addr: Felt) -> (r: Option<usize>)
        requires
            self.wf(),
        ensures
            match r {
                Some(i) => i < self.addrs.len() && self.addrs[i as int] == addr,
                None => !self@.contains_key(addr@),
            },
    {
        let mut i: usize = 0;
        while i < self.addrs.len()
            invariant
                i <= self.addrs.len(),
                forall|j: int| 0 <= j < i ==> self.addrs[j]@ != addr@,
            decreases self.addrs.len() - i,
        {
            if self.addrs[i] == addr {
                return Some(i);
            }
            proof {
                Felt::lemma_view_injective(self.addrs[i as int], addr);
            }
            i = i + 1;
        }
        None
    }

    /// The value at `addr`, or `None` where nothing was written.
    pub fn read(&self, addr: Felt) -> (r: Option<Felt>)
        requires
            self.wf(),
        ensures
            opt_view(r) == read_spec(self@, addr@),
    {
        match self.find(addr) {
            Some(i) => Some(self.vals[i]),
            None => None,
        }
    }

    /// Writes `val` at `addr`; fails where `addr` holds another value.
    pub fn write(&mut self, addr: Felt, val: Felt) -> (r: Result<(), CairoError>)
        requires
            old(self).wf(),
        ensures
            final(self).wf(),
            match write_spec(old(self)@, addr@, val@) {
                Ok(m) => r == Ok::<(), CairoError>(()) && final(self)@ == m,
                Err(e) => r == Err::<(), CairoError>(e) && final(self)@ == old(self)@,
            },
    {
        match self.find(addr) {
            Some(i) => {
                proof {
                    assert(self.cells@.contains_key(self.addrs[i as int]@));
                    Felt::lemma_view_injective(self.vals[i as int], val);
                }
                if self.vals[i] == val {
                    assert(self@.insert(addr@, val@) =~= self@);
                    Ok(())
                } else {
                    Err(CairoError::MemoryInconsistency)
                }
            },
            None => {
                let ghost old_cells = self.cells@;
                let ghost old_addrs = self.addrs@;
                self.addrs.push(addr);
                self.vals.push(val);
                self.cells = Ghost(old_cells.insert(addr@, val@));
                proof {
                    assert forall|a: nat| #[trigger] self.cells@.contains_key(a) implies exists|
                        j: int,
                    | 0 <= j < self.addrs.len() && self.addrs[j]@ == a by {
                        if a != addr@ {
                            assert(old_cells.contains_key(a));
                            let j = choose|j: int| 0 <= j < old_addrs.len() && old_addrs[j]@ == a;
                            assert(self.addrs[j] == old_addrs[j]);
                        } else {
                            assert(self.addrs[self.addrs.len() - 1]@ == a);
                        }
                    }
                }
                Ok(())
            },
        }
    }
}

/// A cell holds one value for good: once `x` is written at `a`, writing a
/// different `y` there fails with `MemoryInconsistency`.
pub proof fn lemma_write_once(m: Map<nat, nat>, a: nat, x: nat, y: nat)
    requires
        write_spec(m, a, x) is Ok,
        x != y,
    ensures
        write_spec(write_spec(m, a, x)->Ok_0, a, y) == Err::<Map<nat, nat>, CairoError>(
            CairoError::MemoryInconsistency,
        ),
{
}

/// A successful write keeps every cell that was set.
pub proof fn lemma_write_keeps_cells(m: Map<nat, nat>, a: nat, x: nat)
    requires
        write_spec(m, a, x) is Ok,
    ensures
        m.submap_of(write_spec(m, a, x)->Ok_0),
        write_spec(m, a, x)->Ok_0.contains_key(a),
        write_spec(m, a, x)->Ok_0[a] == x,
{
}

} // verus!
