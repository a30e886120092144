//! The source locator: an ordered collection of source units gathered
//! from registered roots, resolving a qualified name to its defining
//! unit. Units of earlier-registered roots stand earlier; when two
//! roots define the same name, resolution deterministically returns the
//! first-registered definition (shadowing, not an error).

use vstd::prelude::*;

verus! {

/// A named, located chunk of source text, immutable once loaded.
#[derive(Clone, Debug, PartialEq, Eq)]
pub struct SourceUnit {
    /// The qualified function name the unit defines.
    pub name: Vec<u8>,
    /// Where the unit was found, kept for reporting.
    pub path: Vec<u8>,
    /// The raw source text.
    pub text: Vec<u8>,
}

/// Does some unit before position `k` carry `name`?
pub open spec fn found_before(units: Seq<SourceUnit>, name: Seq<u8>, k: int) -> bool {
    exists|i: int| 0 <= i < k && (#[trigger] units[i]).name@ == name
}

/// Is `i` the position of the first unit carrying `name`?
pub open spec fn is_first_match(units: Seq<SourceUnit>, name: Seq<u8>, i: int) -> bool {
    0 <= i < units.len() && units[i].name@ == name && !found_before(units, name, i)
}

/// The ordered store of all registered source units.
#[derive(Clone, Debug, PartialEq, Eq)]
pub struct Locator {
    pub units: Vec<SourceUnit>,
}

impl Locator {
    /// An empty locator: no roots registered, nothing resolvable.
    pub fn new() -> (r: Locator)
        ensures
            r.units@.len() == 0,
    {
        Locator { units: Vec::new() }
    }

    /// Register the units discovered under one root, after those of all
    /// earlier-registered roots: earlier roots shadow later ones.
    pub fn register_root(&mut self, found: Vec<SourceUnit>)
        ensures
            final(self).units@ == old(self).units@ + found@,
    {
        let ghost gfound = found@;
        proof {
            assert(self.units@ =~= old(self).units@ + gfound.take(0));
        }
        let n = found.len();
        let mut rest = found;
        let mut taken: usize = 0;
        while taken < n
            invariant
                taken <= n,
                n == gfound.len(),
                rest@ == gfound.skip(taken as int),
                self.units@ == old(self).units@ + gfound.take(taken as int),
            decreases n - taken,
        {
            let u = rest.remove(0);
            proof {
                assert(u == gfound[taken as int]);
            }
            self.units.push(u);
            taken = taken + 1;
            proof {
                assert(rest@ =~= gfound.skip(taken as int));
                assert(self.units@ =~= old(self).units@ + gfound.take(taken as int));
            }
        }
        proof {
            assert(gfound.take(taken as int) =~= gfound);
        }
    }

    /// Resolve a qualified name to its defining unit: the first match
    /// in registration order, or `None` when no unit carries the name.
    pub fn resolve(&self, name: &Vec<u8>) -> (r: Option<&SourceUnit>)
        ensures
            match r {
                Some(u) => exists|i: int|
                    is_first_match(self.units@, name@, i) && *u == self.units@[i],
                None => !exists|i: int| 0 <= i < self.units@.len() && (#[trigger] self.units@[i]).name@
                    == name@,
            },
    {
        let mut i: usize = 0;
        while i < self.units.len()
            invariant
                0 <= i <= self.units@.len(),
                !found_before(self.units@, name@, i as int),
            decreases self.units@.len() - i,
        {
            if bytes_eq(&self.units[i].name, name) {
                proof {
                    assert(is_first_match(self.units@, name@, i as int));
                }
                return Some(&self.units[i]);
            }
            i = i + 1;
        }
        None
    }
}

/// Do two byte vectors hold the same bytes?
pub fn bytes_eq(a: &Vec<u8>, b: &Vec<u8>) -> (r: bool)
    ensures
        r == (a@ == b@),
{
    if a.len() != b.len() {
        proof {
            assert(a@ != b@);
        }
        return false;
    }
    let mut i: usize = 0;
    while i < a.len()
        invariant
            0 <= i <= a@.len(),
            a@.len() == b@.len(),
            forall|j: int| 0 <= j < i ==> a@[j] == b@[j],
        decreases a@.len() - i,
    {
        if a[i] != b[i] {
            proof {
                assert(a@[i as int] != b@[i as int]);
            }
            return false;
        }
        i = i + 1;
    }
    proof {
        assert(a@ =~= b@);
    }
    true
}

/// Resolution is deterministic: at most one position is the first
/// match for a name, so two calls agree on the definition returned.
pub proof fn lemma_resolution_deterministic(units: Seq<SourceUnit>, name: Seq<u8>, i: int, j: int)
    requires
        is_first_match(units, name, i),
        is_first_match(units, name, j),
    ensures
        i == j,
{
    if i < j {
        assert(found_before(units, name, j));
    }
    if j < i {
        assert(found_before(units, name, i));
    }
}

/// Shadowing policy: when a name is defined at two positions, the
/// earlier-registered definition wins — the later one is never the
/// resolution result.
pub proof fn lemma_first_root_wins(units: Seq<SourceUnit>, name: Seq<u8>, i: int, j: int)
    requires
        0 <= i < j < units.len(),
        units[i].name@ == name,
        units[j].name@ == name,
    ensures
        !is_first_match(units, name, j),
        exists|k: int| is_first_match(units, name, k) && k <= i,
{
    assert(found_before(units, name, j));
    lemma_some_first_match(units, name, i);
}

/// Below any position carrying a name stands a first match.
proof fn lemma_some_first_match(units: Seq<SourceUnit>, name: Seq<u8>, i: int)
    requires
        0 <= i < units.len(),
        units[i].name@ == name,
    ensures
        exists|k: int| is_first_match(units, name, k) && k <= i,
    decreases i,
{
    if found_before(units, name, i) {
        let e = choose|e: int| 0 <= e < i && (#[trigger] units[e]).name@ == name;
        lemma_some_first_match(units, name, e);
        let k = choose|k: int| is_first_match(units, name, k) && k <= e;
        assert(is_first_match(units, name, k) && k <= i);
    } else {
        assert(is_first_match(units, name, i));
    }
}

} // verus!
