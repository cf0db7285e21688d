//! Compiled methods, and the slots in their code that hold references.
//!
//! The slots of one method are first gathered by the thread that registers it. The registered
//! methods are kept in two groups, nursery and mature.

use crate::address::Address;
use std::collections::HashMap;
use vstd::prelude::*;

verus! {

/// The slots of each registered method, under the address of the method.
#[derive(Debug)]
pub struct CodeCacheRoots {
    /// The methods that may refer to young objects.
    pub nursery: HashMap<usize, Vec<Address>>,
    /// The other methods.
    pub mature: HashMap<usize, Vec<Address>>,
}

/// The registered methods of both groups, with their slots.
pub struct Roots {
    pub nursery: Map<usize, Seq<Address>>,
    pub mature: Map<usize, Seq<Address>>,
}

/// The slots that each list of `lists` holds.
pub open spec fn slots_of(lists: Map<usize, Vec<Address>>) -> Map<usize, Seq<Address>> {
    lists.map_values(|list: Vec<Address>| list@)
}

impl View for CodeCacheRoots {
    type V = Roots;

    open spec fn view(&self) -> Roots {
        Roots { nursery: slots_of(self.nursery@), mature: slots_of(self.mature@) }
    }
}

impl Roots {
    /// Whether no method is in both groups.
    pub open spec fn is_disjoint(self) -> bool {
        self.nursery.dom().disjoint(self.mature.dom())
    }

    /// The method `nm` is registered with `slots`. It may be registered already, because its code
    /// was patched; it then goes back to the nursery, as it may now refer to a young object. A
    /// method without slots is left as it is.
    pub open spec fn register(self, nm: Address, slots: Seq<Address>) -> Roots {
        if slots.len() == 0 {
            self
        } else {
            Roots { nursery: self.nursery.insert(nm.0, slots), mature: self.mature.remove(nm.0) }
        }
    }

    /// The method `nm` is not registered any more.
    pub open spec fn unregister(self, nm: Address) -> Roots {
        Roots { nursery: self.nursery.remove(nm.0), mature: self.mature.remove(nm.0) }
    }
}

impl CodeCacheRoots {
    /// No method is registered.
    pub fn new() -> (roots: CodeCacheRoots)
        ensures
            roots@ == (Roots { nursery: Map::empty(), mature: Map::empty() }),
            roots.nursery@ == Map::<usize, Vec<Address>>::empty(),
            roots.mature@ == Map::<usize, Vec<Address>>::empty(),
    {
        broadcast use vstd::std_specs::hash::group_hash_axioms;

        let roots = CodeCacheRoots { nursery: HashMap::new(), mature: HashMap::new() };
        assert(roots@.nursery =~= Map::empty());
        assert(roots@.mature =~= Map::empty());
        roots
    }
}

/// Gathers one more slot of the method that the thread is about to register.
pub fn mmtk_add_nmethod_oop(slots: &mut Vec<Address>, addr: Address)
    ensures
        final(slots)@ == old(slots)@.push(addr),
{
    slots.push(addr);
}

/// Registers the method `nm` with the slots that the thread has gathered.
pub fn mmtk_register_nmethod(slots: &mut Vec<Address>, roots: &mut CodeCacheRoots, nm: Address)
    ensures
        final(roots)@ == old(roots)@.register(nm, old(slots)@),
        final(slots)@ == Seq::<Address>::empty(),
        old(slots)@.len() == 0 ==> final(roots).nursery@ == old(roots).nursery@
            && final(roots).mature@ == old(roots).mature@,
        old(slots)@.len() > 0 ==> {
            &&& final(roots).nursery@.dom() == old(roots).nursery@.dom().insert(nm.0)
            &&& final(roots).nursery@[nm.0]@ == old(slots)@
            &&& forall|other: usize|
                other != nm.0 && old(roots).nursery@.dom().contains(other) ==> (
                #[trigger] final(roots).nursery@[other]) == old(roots).nursery@[other]
            &&& final(roots).mature@ == old(roots).mature@.remove(nm.0)
        },
{
    broadcast use vstd::std_specs::hash::group_hash_axioms;

    if slots.len() > 0 {
        let mut taken: Vec<Address> = Vec::new();
        core::mem::swap(&mut taken, slots);
        roots.mature.remove(&nm.0);
        roots.nursery.insert(nm.0, taken);
        assert(roots@.nursery =~= old(roots)@.nursery.insert(nm.0, old(slots)@));
        assert(roots@.mature =~= old(roots)@.mature.remove(nm.0));
    } else {
        assert(slots@ =~= Seq::<Address>::empty());
    }
}

/// Forgets the method `nm`.
pub fn mmtk_unregister_nmethod(roots: &mut CodeCacheRoots, nm: Address)
    ensures
        final(roots)@ == old(roots)@.unregister(nm),
        final(roots).nursery@ == old(roots).nursery@.remove(nm.0),
        final(roots).mature@ == old(roots).mature@.remove(nm.0),
{
    broadcast use vstd::std_specs::hash::group_hash_axioms;

    roots.nursery.remove(&nm.0);
    roots.mature.remove(&nm.0);
    assert(roots@.nursery =~= old(roots)@.nursery.remove(nm.0));
    assert(roots@.mature =~= old(roots)@.mature.remove(nm.0));
}

/// The view shows each group as it is: the same methods, each with its own slots in their order.
pub proof fn law_view_shows_both_groups(roots: CodeCacheRoots, nm: usize)
    ensures
        roots@.nursery.dom() == roots.nursery@.dom(),
        roots@.mature.dom() == roots.mature@.dom(),
        roots.nursery@.dom().contains(nm) ==> roots@.nursery[nm] == roots.nursery@[nm]@,
        roots.mature@.dom().contains(nm) ==> roots@.mature[nm] == roots.mature@[nm]@,
{
    assert(roots@.nursery.dom() =~= roots.nursery@.dom());
    assert(roots@.mature.dom() =~= roots.mature@.dom());
}

/// Groups are disjoint where no method is in both.
pub proof fn law_disjoint_groups_share_no_method(roots: Roots)
    ensures
        roots.is_disjoint() <==> forall|nm: usize|
            !(#[trigger] roots.nursery.dom().contains(nm) && roots.mature.dom().contains(nm)),
{
}

/// A method without slots is not registered, and what was registered before it stays.
pub proof fn law_method_without_slots_changes_nothing(roots: Roots, nm: Address)
    ensures
        roots.register(nm, Seq::empty()) == roots,
{
}

/// No method gets into both groups by being registered or forgotten.
pub proof fn law_groups_stay_disjoint(roots: Roots, nm: Address, slots: Seq<Address>)
    requires
        roots.is_disjoint(),
    ensures
        roots.register(nm, slots).is_disjoint(),
        roots.unregister(nm).is_disjoint(),
{
}

/// A method that is registered with slots is in the nursery, with these slots, and not among the
/// mature ones, wherever it was before.
pub proof fn law_registered_method_is_young(roots: Roots, nm: Address, slots: Seq<Address>)
    requires
        slots.len() > 0,
    ensures
        roots.register(nm, slots).nursery.dom().contains(nm.0),
        roots.register(nm, slots).nursery[nm.0] == slots,
        !roots.register(nm, slots).mature.dom().contains(nm.0),
{
}

/// A method that has been forgotten is in neither group, and to forget it takes back that it was
/// registered.
pub proof fn law_forgotten_method_is_gone(roots: Roots, nm: Address, slots: Seq<Address>)
    ensures
        !roots.unregister(nm).nursery.dom().contains(nm.0),
        !roots.unregister(nm).mature.dom().contains(nm.0),
        roots.register(nm, slots).unregister(nm) == roots.unregister(nm),
        roots.unregister(nm).unregister(nm) == roots.unregister(nm),
{
    let once = roots.unregister(nm);
    let back = roots.register(nm, slots).unregister(nm);
    let twice = once.unregister(nm);
    assert(back.nursery =~= once.nursery && back.mature =~= once.mature);
    assert(twice.nursery =~= once.nursery && twice.mature =~= once.mature);
}

/// To register or forget one method leaves all others as they are.
pub proof fn law_other_methods_stay(
    roots: Roots,
    nm: Address,
    slots: Seq<Address>,
    other: Address,
)
    requires
        other != nm,
    ensures
        ({
            let changed = roots.register(nm, slots);
            &&& changed.nursery.dom().contains(other.0) == roots.nursery.dom().contains(other.0)
            &&& changed.nursery[other.0] == roots.nursery[other.0]
            &&& changed.mature.dom().contains(other.0) == roots.mature.dom().contains(other.0)
            &&& changed.mature[other.0] == roots.mature[other.0]
        }),
        ({
            let changed = roots.unregister(nm);
            &&& changed.nursery.dom().contains(other.0) == roots.nursery.dom().contains(other.0)
            &&& changed.nursery[other.0] == roots.nursery[other.0]
            &&& changed.mature.dom().contains(other.0) == roots.mature.dom().contains(other.0)
            &&& changed.mature[other.0] == roots.mature[other.0]
        }),
{
}

} // verus!
