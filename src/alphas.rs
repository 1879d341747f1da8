//! Bookkeeping of the powers of a challenge `alpha` that each kind of
//! constraint uses.
//!
//! Each kind of constraint registers how many powers it needs and receives
//! the next range of exponents, so that no two kinds share a power. Once
//! `alpha` is known, the powers themselves are computed and handed out by
//! range.
use crate::felt::{fmul, Felt};
use vstd::prelude::*;

verus! {

/// The kinds of constraints that use powers of alpha.
#[derive(Clone, Copy, PartialEq, Eq, Structural, Debug, Hash)]
pub enum ArgumentType {
    Gate,
    Permutation,
    Lookup,
}

/// `a` to the power `n` in the field.
pub open spec fn fpow(a: nat, n: nat) -> nat
    decreases n,
{
    if n == 0 {
        1
    } else {
        fmul(fpow(a, (n - 1) as nat), a)
    }
}

/// Hands out the items of a sequence one by one.
pub struct MustConsumeIterator<T> {
    items: Vec<T>,
    pos: usize,
    debug_info: ArgumentType,
}

impl<T: Copy> MustConsumeIterator<T> {
    /// The items not handed out yet.
    pub closed spec fn remaining(&self) -> Seq<T> {
        self.items@.subrange(self.pos as int, self.items.len() as int)
    }

    /// The kind of constraint whose items these are.
    pub closed spec fn kind(&self) -> ArgumentType {
        self.debug_info
    }

    pub closed spec fn wf(&self) -> bool {
        self.pos <= self.items.len()
    }

    /// The next item, if any is left.
    pub fn next(&mut self) -> (r: Option<T>)
        requires
            old(self).wf(),
        ensures
            final(self).wf(),
            final(self).kind() == old(self).kind(),
            old(self).remaining().len() == 0 ==> r is None && final(self).remaining()
                == old(self).remaining(),
            old(self).remaining().len() > 0 ==> r == Some(old(self).remaining()[0])
                && final(self).remaining() == old(self).remaining().drop_first(),
    {
        if self.pos < self.items.len() {
            let x = self.items[self.pos];
            self.pos = self.pos + 1;
            assert(self.remaining() =~= old(self).remaining().drop_first());
            Some(x)
        } else {
            None
        }
    }

    /// Whether every item was handed out.
    pub fn is_consumed(&self) -> (r: bool)
        requires
            self.wf(),
        ensures
            r == (self.remaining().len() == 0),
    {
        self.pos == self.items.len()
    }
}

/// The ranges of powers of alpha that each kind of constraint uses, and the
/// powers themselves once alpha is known.
pub struct Alphas {
    next_power: usize,
    mapping: Vec<(ArgumentType, usize, usize)>,
    ranges: Ghost<Map<ArgumentType, (nat, nat)>>,
    alphas: Option<Vec<Felt>>,
}

impl Alphas {
    /// The next exponent to hand out: the exponents used are `0..next_power()`.
    pub closed spec fn next_power(&self) -> nat {
        self.next_power as nat
    }

    /// The range of exponents `start..end` of each registered kind.
    pub closed spec fn ranges(&self) -> Map<ArgumentType, (nat, nat)> {
        self.ranges@
    }

    /// The values of the powers of alpha, once instantiated.
    pub closed spec fn powers(&self) -> Option<Seq<nat>> {
        match self.alphas {
            Some(v) => Some(v@.map_values(|f: Felt| f@)),
            None => None,
        }
    }

    pub closed spec fn wf(&self) -> bool {
        &&& forall|i: int|
            0 <= i < self.mapping.len() ==> #[trigger] self.ranges@.contains_key(self.mapping[i].0)
                && self.ranges@[self.mapping[i].0] == (
                self.mapping[i].1 as nat,
                self.mapping[i].2 as nat,
            )
        &&& forall|ty: ArgumentType|
            #[trigger] self.ranges@.contains_key(ty) ==> exists|i: int|
                0 <= i < self.mapping.len() && self.mapping[i].0 == ty
        &&& forall|ty: ArgumentType| #[trigger]
            self.ranges@.contains_key(ty) ==> self.ranges@[ty].0 <= self.ranges@[ty].1
                <= self.next_power
        &&& match self.alphas {
            Some(v) => v.len() == self.next_power,
            None => true,
        }
    }

    /// No kind registered, alpha not known.
    pub fn new() -> (r: Alphas)
        ensures
            r.wf(),
            r.next_power() == 0,
            r.ranges().is_empty(),
            r.powers() is None,
    {
        Alphas { next_power: 0, mapping: Vec::new(), ranges: Ghost(Map::empty()), alphas: None }
    }

    /// Where `ty` is registered, if it is.
    fn find(&self, ty: ArgumentType) -> (r: Option<usize>)
        requires
            self.wf(),
        ensures
            match r {
                Some(i) => i < self.mapping.len() && self.mapping[i as int].0 == ty,
                None => !self.ranges().contains_key(ty),
            },
    {
        let mut i: usize = 0;
        while i < self.mapping.len()
            invariant
                i <= self.mapping.len(),
                forall|j: int| 0 <= j < i ==> self.mapping[j].0 != ty,
            decreases self.mapping.len() - i,
        {
            if self.mapping[i].0 == ty {
                return Some(i);
            }
            i = i + 1;
        }
        None
    }

    /// Registers `ty` with the next `powers` exponents. Registering happens
    /// before alpha is known, once per kind.
    pub fn register(&mut self, ty: ArgumentType, powers: usize)
        requires
            old(self).wf(),
            old(self).powers() is None,
            !old(self).ranges().contains_key(ty),
            old(self).next_power() + powers <= usize::MAX,
        ensures
            final(self).wf(),
            final(self).powers() is None,
            final(self).next_power() == old(self).next_power() + powers,
            final(self).ranges() == old(self).ranges().insert(
                ty,
                (old(self).next_power(), (old(self).next_power() + powers) as nat),
            ),
    {
        let new_power = self.next_power + powers;
        let ghost old_ranges = self.ranges@;
        let ghost old_mapping = self.mapping@;
        self.mapping.push((ty, self.next_power, new_power));
        self.ranges = Ghost(old_ranges.insert(ty, (self.next_power as nat, new_power as nat)));
        self.next_power = new_power;
        assert forall|t: ArgumentType| #[trigger] self.ranges@.contains_key(t) implies exists|
            i: int,
        | 0 <= i < self.mapping.len() && self.mapping[i].0 == t by {
            if t != ty {
                let j = choose|j: int| 0 <= j < old_mapping.len() && old_mapping[j].0 == t;
                assert(self.mapping[j] == old_mapping[j]);
            } else {
                assert(self.mapping[self.mapping.len() - 1].0 == t);
            }
        }
        assert forall|i: int| 0 <= i < self.mapping.len() implies #[trigger] self.ranges@.contains_key(
            self.mapping[i].0,
        ) && self.ranges@[self.mapping[i].0] == (
            self.mapping[i].1 as nat,
            self.mapping[i].2 as nat,
        ) by {
            if i < old_mapping.len() {
                assert(self.mapping[i] == old_mapping[i]);
                assert(old_ranges.contains_key(old_mapping[i].0));
            }
        }
    }

    /// The first `num` exponents of the range of `ty`, or all of them where
    /// it holds fewer.
    pub fn get_exponents(&self, ty: ArgumentType, num: usize) -> (r: MustConsumeIterator<usize>)
        requires
            self.wf(),
            self.ranges().contains_key(ty),
        ensures
            r.wf(),
            r.kind() == ty,
            ({
                let (start, end) = self.ranges()[ty];
                let k = if num < end - start {
                    num as nat
                } else {
                    (end - start) as nat
                };
                &&& r.remaining().len() == k
                &&& forall|i: int| 0 <= i < k ==> #[trigger] r.remaining()[i] == start + i
            }),
    {
        let i = match self.find(ty) {
            Some(i) => i,
            None => {
                return MustConsumeIterator { items: Vec::new(), pos: 0, debug_info: ty };
            },
        };
        let (_, start, end) = self.mapping[i];
        let k = if num < end - start {
            num
        } else {
            end - start
        };
        let mut items: Vec<usize> = Vec::new();
        let mut j: usize = 0;
        while j < k
            invariant
                start + k <= end,
                j <= k,
                items.len() == j,
                forall|t: int| 0 <= t < j ==> #[trigger] items[t] == start + t,
            decreases k - j,
        {
            items.push(start + j);
            j = j + 1;
        }
        let r = MustConsumeIterator { items, pos: 0, debug_info: ty };
        assert(r.remaining() =~= items@);
        r
    }

    /// Computes the powers `alpha^0 .. alpha^(next_power - 1)`. No kind can
    /// be registered afterwards.
    pub fn instantiate(&mut self, alpha: Felt)
        requires
            old(self).wf(),
            old(self).next_power() >= 1,
        ensures
            final(self).wf(),
            final(self).next_power() == old(self).next_power(),
            final(self).ranges() == old(self).ranges(),
            final(self).powers() == Some(Seq::new(old(self).next_power(), |i: int| fpow(alpha@, i as nat))),
    {
        let mut last_power = Felt::one();
        let mut alphas: Vec<Felt> = Vec::new();
        alphas.push(Felt::one());
        let mut i: usize = 1;
        while i < self.next_power
            invariant
                *self == *old(self),
                1 <= i <= self.next_power,
                alphas.len() == i,
                last_power@ == fpow(alpha@, (i - 1) as nat),
                forall|t: int| 0 <= t < i ==> #[trigger] alphas[t]@ == fpow(alpha@, t as nat),
            decreases self.next_power - i,
        {
            last_power = last_power.mul(alpha);
            alphas.push(last_power);
            i = i + 1;
        }
        assert(alphas.len() == self.next_power);
        self.alphas = Some(alphas);
        assert(self.mapping == old(self).mapping && self.ranges == old(self).ranges);
        assert(self.powers()->Some_0 =~= Seq::new(self.next_power as nat, |t: int| fpow(alpha@, t as nat)));
    }

    /// The first `num` powers of alpha in the range of `ty`, or all of them
    /// where it holds fewer.
    pub fn get_alphas(&self, ty: ArgumentType, num: usize) -> (r: MustConsumeIterator<Felt>)
        requires
            self.wf(),
            self.ranges().contains_key(ty),
            self.powers() is Some,
        ensures
            r.wf(),
            r.kind() == ty,
            ({
                let (start, end) = self.ranges()[ty];
                let k = if num < end - start {
                    num as nat
                } else {
                    (end - start) as nat
                };
                &&& r.remaining().len() == k
                &&& forall|i: int|
                    0 <= i < k ==> #[trigger] r.remaining()[i]@ == self.powers()->Some_0[start + i]
            }),
    {
        let i = match self.find(ty) {
            Some(i) => i,
            None => {
                return MustConsumeIterator { items: Vec::new(), pos: 0, debug_info: ty };
            },
        };
        let (_, start, end) = self.mapping[i];
        let k = if num < end - start {
            num
        } else {
            end - start
        };
        let powers = match &self.alphas {
            Some(v) => v,
            None => {
                return MustConsumeIterator { items: Vec::new(), pos: 0, debug_info: ty };
            },
        };
        let mut items: Vec<Felt> = Vec::new();
        let mut j: usize = 0;
        while j < k
            invariant
                start + k <= end,
                end <= powers.len(),
                j <= k,
                items.len() == j,
                forall|t: int| 0 <= t < j ==> #[trigger] items[t] == powers[start + t],
            decreases k - j,
        {
            items.push(powers[start + j]);
            j = j + 1;
        }
        let r = MustConsumeIterator { items, pos: 0, debug_info: ty };
        assert(r.remaining() =~= items@);
        r
    }
}

impl Default for Alphas {
    fn default() -> (r: Alphas)
        ensures
            r.wf(),
            r.next_power() == 0,
            r.ranges().is_empty(),
            r.powers() is None,
    {
        Alphas::new()
    }
}

} // verus!
