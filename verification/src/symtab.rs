//! The symbol table: label names mapped to dense, insertion-ordered
//! reference ids, and a parallel sequence of resolved addresses with
//! `UNRESOLVED` as the not-yet-bound sentinel.

use vstd::prelude::*;

use crate::ast::UNRESOLVED;

verus! {

/// The mathematical model of a symbol table: the names in insertion
/// order (the reference id of a name is its index) and the parallel
/// sequence of addresses.
#[verifier::ext_equal]
pub ghost struct SymModel {
    pub names: Seq<Seq<u8>>,
    pub addrs: Seq<u16>,
}

impl SymModel {
    pub open spec fn empty() -> SymModel {
        SymModel { names: Seq::empty(), addrs: Seq::empty() }
    }

    /// Well-formedness: ids are dense and 1:1 with addresses, and no
    /// name occurs twice.
    pub open spec fn wf(self) -> bool {
        &&& self.names.len() == self.addrs.len()
        &&& forall|i: int, j: int|
            0 <= i < j < self.names.len() ==> self.names[i] != self.names[j]
    }
}

/// The first index holding `name`, or -1 if it does not occur.
pub open spec fn find_name(names: Seq<Seq<u8>>, name: Seq<u8>) -> int
    decreases names.len(),
{
    if names.len() == 0 {
        -1
    } else if names[0] == name {
        0
    } else {
        let r = find_name(names.drop_first(), name);
        if r < 0 {
            -1
        } else {
            r + 1
        }
    }
}

pub proof fn lemma_find_name(names: Seq<Seq<u8>>, name: Seq<u8>)
    ensures
        find_name(names, name) >= 0 ==> {
            &&& find_name(names, name) < names.len()
            &&& names[find_name(names, name)] == name
        },
        find_name(names, name) >= 0 ==> (forall|i: int|
            0 <= i < find_name(names, name) ==> names[i] != name),
        find_name(names, name) < 0 ==> (forall|i: int|
            0 <= i < names.len() ==> names[i] != name),
    decreases names.len(),
{
    if names.len() > 0 && names[0] != name {
        lemma_find_name(names.drop_first(), name);
        let r = find_name(names.drop_first(), name);
        if r < 0 {
            assert forall|i: int| 0 <= i < names.len() implies names[i] != name by {
                if i > 0 {
                    assert(names.drop_first()[i - 1] == names[i]);
                }
            }
        } else {
            assert forall|i: int| 0 <= i < find_name(names, name) implies names[i] != name by {
                if i > 0 {
                    assert(names.drop_first()[i - 1] == names[i]);
                }
            }
        }
    }
}

/// What `add_reference` does: returns the id of an already-seen name and
/// leaves the table unchanged, or appends a new name with an unresolved
/// address slot and returns the new id.
pub open spec fn spec_add_reference(m: SymModel, name: Seq<u8>) -> (int, SymModel) {
    let f = find_name(m.names, name);
    if f >= 0 {
        (f, m)
    } else {
        (
            m.names.len() as int,
            SymModel { names: m.names.push(name), addrs: m.addrs.push(UNRESOLVED) },
        )
    }
}

/// What `add_label` does: registers the name, then binds its slot to
/// `address` only if the slot is still unresolved; an already-resolved
/// slot is a duplicate and leaves the table as it stands.
pub open spec fn spec_add_label(m: SymModel, name: Seq<u8>, address: u16) -> (
    Result<int, ()>,
    SymModel,
) {
    let (idx, m1) = spec_add_reference(m, name);
    if m1.addrs[idx] != UNRESOLVED {
        (Err(()), m1)
    } else {
        (Ok(idx), SymModel { names: m1.names, addrs: m1.addrs.update(idx, address) })
    }
}

/// What `resolve_reference` returns: the bound address of an in-range,
/// resolved id, and `None` otherwise.
pub open spec fn spec_resolve(m: SymModel, id: int) -> Option<u16> {
    if 0 <= id < m.addrs.len() && m.addrs[id] != UNRESOLVED {
        Some(m.addrs[id])
    } else {
        None
    }
}

pub struct SymbolTable {
    names: Vec<Vec<u8>>,
    addresses: Vec<u16>,
}

impl View for SymbolTable {
    type V = SymModel;

    closed spec fn view(&self) -> SymModel {
        SymModel { names: self.names@.map_values(|v: Vec<u8>| v@), addrs: self.addresses@ }
    }
}

/// Byte-wise equality of two byte vectors.
fn bytes_eq(a: &Vec<u8>, b: &Vec<u8>) -> (r: bool)
    ensures
        r == (a@ == b@),
{
    if a.len() != b.len() {
        assert(a@ != b@);
        return false;
    }
    let mut i: usize = 0;
    while i < a.len()
        invariant
            i <= a.len(),
            a.len() == b.len(),
            forall|j: int| 0 <= j < i ==> a@[j] == b@[j],
        decreases a.len() - i,
    {
        if a[i] != b[i] {
            return false;
        }
        i += 1;
    }
    assert(a@ =~= b@);
    true
}

impl SymbolTable {
    /// A fresh, empty table.
    pub fn new() -> (r: SymbolTable)
        ensures
            r@ == SymModel::empty(),
            r@.wf(),
    {
        let r = SymbolTable { names: Vec::new(), addresses: Vec::new() };
        proof {
            assert(r@ =~= SymModel::empty());
        }
        r
    }

    /// The first id bound to `name`, if the name has been seen.
    fn find(&self, name: &Vec<u8>) -> (r: Option<usize>)
        ensures
            match r {
                Some(i) => find_name(self@.names, name@) == i,
                None => find_name(self@.names, name@) < 0,
            },
    {
        proof {
            lemma_find_name(self@.names, name@);
        }
        let mut i: usize = 0;
        while i < self.names.len()
            invariant
                i <= self.names.len(),
                forall|j: int| 0 <= j < i ==> self@.names[j] != name@,
            decreases self.names.len() - i,
        {
            let hit = bytes_eq(&self.names[i], name);
            proof {
                assert(self@.names[i as int] == self.names@[i as int]@);
            }
            if hit {
                proof {
                    lemma_find_name(self@.names, name@);
                    let f = find_name(self@.names, name@);
                    assert(self@.names[i as int] == name@);
                    assert(f >= 0);
                    if f < i {
                        assert(self@.names[f] != name@);
                    }
                }
                return Some(i);
            }
            i += 1;
        }
        proof {
            lemma_find_name(self@.names, name@);
            if find_name(self@.names, name@) >= 0 {
                assert(self@.names[find_name(self@.names, name@)] == name@);
            }
        }
        None
    }

    /// Returns the existing id for `name`, or allocates the next id and
    /// appends an unresolved address slot. Idempotent per name.
    pub fn add_reference(&mut self, symbol: &Vec<u8>) -> (r: usize)
        requires
            old(self)@.wf(),
        ensures
            final(self)@.wf(),
            ({
                let (idx, m1) = spec_add_reference(old(self)@, symbol@);
                r == idx && final(self)@ == m1
            }),
    {
        match self.find(symbol) {
            Some(i) => {
                proof {
                    lemma_find_name(self@.names, symbol@);
                }
                i
            },
            None => {
                let index = self.names.len();
                let mut owned: Vec<u8> = Vec::new();
                let mut k: usize = 0;
                while k < symbol.len()
                    invariant
                        k <= symbol.len(),
                        owned@ == symbol@.take(k as int),
                    decreases symbol.len() - k,
                {
                    owned.push(symbol[k]);
                    proof {
                        assert(owned@ =~= symbol@.take(k + 1 as int));
                    }
                    k += 1;
                }
                proof {
                    assert(owned@ =~= symbol@);
                }
                self.names.push(owned);
                self.addresses.push(UNRESOLVED);
                proof {
                    let (idx, m1) = spec_add_reference(old(self)@, symbol@);
                    assert(self@.names =~= old(self)@.names.push(symbol@));
                    assert(self@ =~= m1);
                    lemma_find_name(old(self)@.names, symbol@);
                    assert forall|i: int, j: int|
                        0 <= i < j < self@.names.len() implies self@.names[i]
                        != self@.names[j] by {
                        if j == self@.names.len() - 1 {
                            assert(self@.names[i] == old(self)@.names[i]);
                        }
                    }
                }
                index
            },
        }
    }

    /// Binds `symbol` to `address`. Fails, leaving every binding as it
    /// was, when the name is already bound to an address.
    pub fn add_label(&mut self, symbol: &Vec<u8>, address: u16) -> (r: Result<usize, ()>)
        requires
            old(self)@.wf(),
        ensures
            final(self)@.wf(),
            ({
                let (res, m1) = spec_add_label(old(self)@, symbol@, address);
                ((match (r, res) {
                    (Ok(i), Ok(si)) => i == si,
                    (Err(()), Err(())) => true,
                    _ => false,
                }) && final(self)@ == m1)
            }),
            r is Err ==> final(self)@ == old(self)@,
    {
        let index = self.add_reference(symbol);
        proof {
            lemma_find_name(old(self)@.names, symbol@);
        }
        if self.addresses[index] != UNRESOLVED {
            Err(())
        } else {
            self.addresses.set(index, address);
            proof {
                let (res, m1) = spec_add_label(old(self)@, symbol@, address);
                assert(self@ =~= m1);
            }
            Ok(index)
        }
    }

    /// Whether binding `name` now would succeed: the name is new, or was
    /// only ever used as a reference and is still unresolved.
    pub fn label_unbound(&self, name: &Vec<u8>) -> (r: bool)
        requires
            self@.wf(),
        ensures
            forall|a: u16| r == (spec_add_label(self@, name@, a).0 is Ok),
    {
        match self.find(name) {
            None => {
                proof {
                    lemma_find_name(self@.names, name@);
                }
                true
            },
            Some(i) => {
                proof {
                    lemma_find_name(self@.names, name@);
                }
                self.addresses[i] == UNRESOLVED
            },
        }
    }

    /// The address bound to reference id `label`, if any.
    pub fn resolve_reference(&self, label: usize) -> (r: Option<u16>)
        ensures
            r == spec_resolve(self@, label as int),
    {
        if label < self.addresses.len() && self.addresses[label] < UNRESOLVED {
            Some(self.addresses[label])
        } else {
            None
        }
    }
}

/// A reference taken before its label is defined resolves to the
/// label's final address: registering a name and later binding it gives
/// the bound address under the id the first use was given, as long as
/// the address is not the unresolved sentinel itself.
pub proof fn lemma_forward_reference_resolves(m: SymModel, name: Seq<u8>, address: u16)
    requires
        m.wf(),
        address != UNRESOLVED,
    ensures
        ({
            let (id, m1) = spec_add_reference(m, name);
            spec_add_label(m1, name, address).0 is Ok ==> spec_resolve(
                spec_add_label(m1, name, address).1,
                id,
            ) == Some(address)
        }),
{
    lemma_find_name(m.names, name);
    let (id, m1) = spec_add_reference(m, name);
    lemma_find_name(m1.names, name);
    let f1 = find_name(m1.names, name);
    if find_name(m.names, name) < 0 {
        assert(m1.names[id] == name);
        assert(f1 >= 0);
        if f1 < id {
            assert(m1.names[f1] == m.names[f1]);
        }
    }
    assert(f1 == id);
}

/// Binding a fresh label and then resolving the id it was given yields
/// exactly the bound address, as long as the address is not the
/// unresolved sentinel itself.
pub proof fn lemma_label_then_resolve(m: SymModel, name: Seq<u8>, address: u16)
    requires
        m.wf(),
        address != UNRESOLVED,
        spec_add_label(m, name, address).0 is Ok,
    ensures
        ({
            let (res, m1) = spec_add_label(m, name, address);
            spec_resolve(m1, res.unwrap()) == Some(address)
        }),
{
    lemma_find_name(m.names, name);
}

} // verus!
