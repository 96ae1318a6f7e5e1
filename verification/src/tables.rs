use vstd::prelude::*;
use std::collections::HashMap;
use crate::types::ContractError;

verus! {

broadcast use vstd::std_specs::hash::group_hash_axioms;

/// One key for a pair of 64-bit values: `a` in the high half, `b` in the low half.
pub open spec fn pair_key(a: u64, b: u64) -> u128 {
    (a * 0x1_0000_0000_0000_0000 + b) as u128
}

/// Distinct pairs have distinct keys.
pub broadcast proof fn lemma_pair_key_injective(a1: u64, b1: u64, a2: u64, b2: u64)
    ensures
        #[trigger] pair_key(a1, b1) == #[trigger] pair_key(a2, b2) ==> a1 == a2 && b1 == b2,
{
    let k: int = 0x1_0000_0000_0000_0000;
    assert(a1 * k + b1 <= u128::MAX) by (nonlinear_arith)
        requires a1 < k, b1 < k, k == 0x1_0000_0000_0000_0000;
    assert(a2 * k + b2 <= u128::MAX) by (nonlinear_arith)
        requires a2 < k, b2 < k, k == 0x1_0000_0000_0000_0000;
    if a1 * k + b1 == a2 * k + b2 {
        assert(a1 == a2 && b1 == b2) by (nonlinear_arith)
            requires a1 * k + b1 == a2 * k + b2, 0 <= b1 < k, 0 <= b2 < k, k > 0, a1 >= 0, a2 >= 0;
    }
}

/// Computes `pair_key(a, b)`.
pub fn make_pair_key(a: u64, b: u64) -> (k: u128)
    ensures
        k == pair_key(a, b),
{
    proof {
        let kk: int = 0x1_0000_0000_0000_0000;
        assert(a * kk + b <= u128::MAX) by (nonlinear_arith)
            requires a < kk, b < kk, kk == 0x1_0000_0000_0000_0000;
    }
    (a as u128) * 0x1_0000_0000_0000_0000u128 + (b as u128)
}

/// The value stored under `k`, zero where nothing is stored.
pub open spec fn stored_u64(m: Map<u128, u64>, k: u128) -> u64 {
    if m.contains_key(k) {
        m[k]
    } else {
        0
    }
}

/// `s` after the insertion of `x` into the set it lists: appended unless already there.
pub open spec fn set_inserted(s: Seq<u64>, x: u64) -> Seq<u64> {
    if s.contains(x) {
        s
    } else {
        s.push(x)
    }
}

/// The first index at which `x` stands in `s`.
pub open spec fn first_index(s: Seq<u64>, x: u64) -> int {
    choose|i: int| 0 <= i < s.len() && s[i] == x && forall|j: int| 0 <= j < i ==> s[j] != x
}

/// `s` after the removal of `x` from the set it lists: the last element takes the place
/// of `x`.
pub open spec fn swap_removed(s: Seq<u64>, x: u64) -> Seq<u64> {
    if s.contains(x) {
        s.update(first_index(s, x), s.last()).drop_last()
    } else {
        s
    }
}

/// Removing `x` from a list without duplicates removes it from the set it lists, and
/// leaves no duplicates.
pub proof fn lemma_swap_removed_set(s: Seq<u64>, x: u64)
    requires
        s.no_duplicates(),
    ensures
        swap_removed(s, x).no_duplicates(),
        swap_removed(s, x).to_set() == s.to_set().remove(x),
{
    if !s.contains(x) {
        assert(s.to_set() =~= s.to_set().remove(x));
    } else {
        let k = choose|k: int| 0 <= k < s.len() && s[k] == x;
        let i = first_index(s, x);
        assert(exists|j: int| 0 <= j < s.len() && s[j] == x && forall|l: int| 0 <= l < j ==> s[l] != x) by {
            assert(forall|l: int| 0 <= l < k ==> s[l] != x);
        }
        let t = swap_removed(s, x);
        assert forall|a: int, b: int| 0 <= a < t.len() && 0 <= b < t.len() && a != b implies t[a] != t[b] by {
            if a == i {
                assert(t[a] == s[s.len() - 1]);
                assert(t[b] == s[b]);
            } else if b == i {
                assert(t[b] == s[s.len() - 1]);
                assert(t[a] == s[a]);
            }
        }
        assert(t.to_set() =~= s.to_set().remove(x)) by {
            assert forall|y: u64| t.to_set().contains(y) implies s.to_set().remove(x).contains(y) by {
                let j = choose|j: int| 0 <= j < t.len() && t[j] == y;
                if j == i {
                    assert(s[s.len() - 1] == y);
                } else {
                    assert(s[j] == y);
                }
            }
            assert forall|y: u64| s.to_set().remove(x).contains(y) implies t.to_set().contains(y) by {
                let j = choose|j: int| 0 <= j < s.len() && s[j] == y;
                if j == s.len() - 1 {
                    assert(t[i] == y);
                } else {
                    assert(t[j] == y);
                }
            }
        }
    }
}

/// Where `x` first stands in `v`, if it does.
pub fn position(v: &Vec<u64>, x: u64) -> (r: Option<usize>)
    ensures
        match r {
            Some(i) => v@.contains(x) && i as int == first_index(v@, x) && i < v@.len() && v@[i as int] == x,
            None => !v@.contains(x),
        },
{
    let mut i: usize = 0;
    while i < v.len()
        invariant
            i <= v@.len(),
            forall|j: int| 0 <= j < i ==> v@[j] != x,
        decreases v@.len() - i,
    {
        if v[i] == x {
            proof {
                let ii = i as int;
                assert(0 <= ii < v@.len() && v@[ii] == x && forall|j: int| 0 <= j < ii ==> v@[j] != x);
                let f = first_index(v@, x);
                if f < ii {
                } else if f > ii {
                    assert(v@[ii] != x);
                }
            }
            return Some(i);
        }
        i = i + 1;
    }
    None
}

/// Whether `x` is in the set that `v` lists.
pub fn set_contains(v: &Vec<u64>, x: u64) -> (b: bool)
    ensures
        b == v@.contains(x),
{
    position(v, x).is_some()
}

/// Inserts `x` into the set that `v` lists.
pub fn set_insert(v: &mut Vec<u64>, x: u64)
    ensures
        final(v)@ == set_inserted(old(v)@, x),
        old(v)@.no_duplicates() ==> final(v)@.no_duplicates(),
{
    if !set_contains(v, x) {
        v.push(x);
    }
}

/// Removes `x` from the set that `v` lists; the last element takes its place.
pub fn set_swap_remove(v: &mut Vec<u64>, x: u64)
    ensures
        final(v)@ == swap_removed(old(v)@, x),
        old(v)@.no_duplicates() ==> final(v)@.no_duplicates(),
        old(v)@.no_duplicates() ==> final(v)@.to_set() == old(v)@.to_set().remove(x),
{
    let ghost s = v@;
    match position(v, x) {
        Some(i) => {
            v.swap_remove(i);
            proof {
                if s.no_duplicates() {
                    lemma_swap_removed_set(s, x);
                }
            }
        },
        None => {
            proof {
                if s.no_duplicates() {
                    lemma_swap_removed_set(s, x);
                }
            }
        },
    }
}

/// The sets kept under each key, each as the sequence that lists it.
pub open spec fn seq_view(m: Map<u64, Vec<u64>>) -> Map<u64, Seq<u64>> {
    m.map_values(|v: Vec<u64>| v@)
}

/// The members of the set kept under `k`, none where no set is kept.
pub open spec fn members(m: Map<u64, Seq<u64>>, k: u64) -> Seq<u64> {
    if m.contains_key(k) {
        m[k]
    } else {
        Seq::empty()
    }
}

/// No set kept under a key lists an element twice.
pub open spec fn keyed_no_dups(m: Map<u64, Vec<u64>>) -> bool {
    forall|k: u64| #[trigger] m.contains_key(k) ==> m[k]@.no_duplicates()
}

/// Whether `x` is in the set kept under `k`.
pub fn keyed_contains(m: &HashMap<u64, Vec<u64>>, k: u64, x: u64) -> (b: bool)
    ensures
        b == members(seq_view(m@), k).contains(x),
{
    match m.get(&k) {
        Some(v) => set_contains(v, x),
        None => false,
    }
}

/// Inserts `x` into the set kept under `k`.
pub fn keyed_insert(m: &mut HashMap<u64, Vec<u64>>, k: u64, x: u64)
    ensures
        seq_view(final(m)@) == seq_view(old(m)@).insert(k, set_inserted(members(seq_view(old(m)@), k), x)),
        keyed_no_dups(old(m)@) ==> keyed_no_dups(final(m)@),
{
    let mut v = match m.remove(&k) {
        Some(v) => v,
        None => Vec::new(),
    };
    set_insert(&mut v, x);
    m.insert(k, v);
    assert(seq_view(m@) =~= seq_view(old(m)@).insert(k, set_inserted(members(seq_view(old(m)@), k), x)));
}

/// Removes `x` from the set kept under `k`, if a set is kept there.
pub fn keyed_swap_remove(m: &mut HashMap<u64, Vec<u64>>, k: u64, x: u64)
    ensures
        seq_view(final(m)@) == if old(m)@.contains_key(k) {
            seq_view(old(m)@).insert(k, swap_removed(old(m)@[k]@, x))
        } else {
            seq_view(old(m)@)
        },
        keyed_no_dups(old(m)@) ==> keyed_no_dups(final(m)@),
{
    match m.remove(&k) {
        Some(v) => {
            let mut v = v;
            set_swap_remove(&mut v, x);
            m.insert(k, v);
            assert(seq_view(m@) =~= seq_view(old(m)@).insert(k, swap_removed(old(m)@[k]@, x)));
        },
        None => {},
    }
}

/// A mapper from pairs of values (a token identifier and a nonce) to numeric ids, handed
/// out in order from 1.
pub struct ObjectToIdMapper {
    pub ids: HashMap<u128, u64>,
    pub last_id: u64,
}

impl ObjectToIdMapper {
    /// Every id handed out lies between 1 and the last id.
    pub open spec fn wf(&self) -> bool {
        forall|k: u128| #[trigger] self.ids@.contains_key(k) ==> 1 <= self.ids@[k] <= self.last_id
    }

    /// The id of `(a, b)`, zero when it has none.
    pub open spec fn id_of(&self, a: u64, b: u64) -> u64 {
        stored_u64(self.ids@, pair_key(a, b))
    }

    /// The id that `get_id_or_insert` gives `(a, b)`.
    pub open spec fn next_id(&self, a: u64, b: u64) -> u64 {
        if self.id_of(a, b) != 0 {
            self.id_of(a, b)
        } else {
            (self.last_id + 1) as u64
        }
    }

    /// `get_id_or_insert` of `(a, b)` fails: a new id is needed past the last one.
    pub open spec fn insert_overflows(&self, a: u64, b: u64) -> bool {
        self.id_of(a, b) == 0 && self.last_id == u64::MAX
    }

    /// `new` is `self` after a successful `get_id_or_insert` of `(a, b)`.
    pub open spec fn inserted(&self, new: &Self, a: u64, b: u64) -> bool {
        &&& !self.insert_overflows(a, b)
        &&& if self.id_of(a, b) != 0 {
            new.ids@ == self.ids@ && new.last_id == self.last_id
        } else {
            new.ids@ == self.ids@.insert(pair_key(a, b), self.next_id(a, b)) && new.last_id == self.next_id(a, b)
        }
    }

    /// An empty mapper.
    pub fn new() -> (m: Self)
        ensures
            m.ids@ == Map::<u128, u64>::empty(),
            m.last_id == 0,
            m.wf(),
    {
        ObjectToIdMapper { ids: HashMap::new(), last_id: 0 }
    }

    /// The id of `(a, b)`, zero when it has none.
    pub fn get_id(&self, a: u64, b: u64) -> (id: u64)
        ensures
            id == self.id_of(a, b),
    {
        match self.ids.get(&make_pair_key(a, b)) {
            Some(id) => *id,
            None => 0,
        }
    }

    /// The id of `(a, b)`; `UnknownObject` when it has none.
    pub fn get_id_non_zero(&self, a: u64, b: u64) -> (r: Result<u64, ContractError>)
        ensures
            match r {
                Ok(id) => id == self.id_of(a, b) && id != 0,
                Err(e) => e == ContractError::UnknownObject && self.id_of(a, b) == 0,
            },
    {
        let id = self.get_id(a, b);
        if id == 0 {
            Err(ContractError::UnknownObject)
        } else {
            Ok(id)
        }
    }

    /// The id of `(a, b)`, handing out the next one when it has none.
    pub fn get_id_or_insert(&mut self, a: u64, b: u64) -> (r: Result<u64, ContractError>)
        ensures
            old(self).insert_overflows(a, b) ==> r == Err::<u64, ContractError>(ContractError::Overflow) && *final(self) == *old(self),
            !old(self).insert_overflows(a, b) ==> {
                &&& r == Ok::<u64, ContractError>(old(self).next_id(a, b))
                &&& old(self).inserted(final(self), a, b)
                &&& old(self).wf() ==> final(self).wf()
                &&& old(self).next_id(a, b) >= 1
            },
    {
        let id = self.get_id(a, b);
        if id != 0 {
            return Ok(id);
        }
        if self.last_id == u64::MAX {
            return Err(ContractError::Overflow);
        }
        let new_id = self.last_id + 1;
        self.ids.insert(make_pair_key(a, b), new_id);
        self.last_id = new_id;
        Ok(new_id)
    }
}

} // verus!
