//! The kitty registry: creation, ownership transfer and breeding of
//! uniquely identified kitties, together with the derived indices that the
//! registry keeps consistent with the ownership and parentage records.

use vstd::prelude::*;
use crate::dna::{blake2_128_of, spec_random_payload, spec_combined_dna, combine_dna, random_value};

verus! {

broadcast use vstd::seq_lib::lemma_seq_contains_after_push;

/// A kitty: a 16-byte genetic code. Immutable once created.
#[derive(Clone, Copy, Debug)]
pub struct Kitty(pub [u8; 16]);

/// Why an operation was rejected. Every failure leaves the registry
/// unchanged.
#[derive(Clone, Copy, Debug, PartialEq, Eq, Structural)]
pub enum Error {
    /// The id allocation counter is at the maximum representable value.
    KittiesCountOverflow,
    /// The caller is not the recorded owner of the kitty.
    KittyNotOwn,
    /// The referenced id has no kitty record.
    InvalidKittyId,
    /// Breeding was attempted with a single kitty as both parents.
    RequireDifferentParent,
}

/// A notification of a state change, kept in the order the changes
/// happened.
#[derive(Clone, Copy, Debug, PartialEq, Eq, Structural)]
pub enum Event {
    Create(u64, u32),
    Transfer(u64, u64, u32),
    Breed(u64, u32, u32, u32),
}

/// The registry state. Ids are allocated densely from zero, so the record
/// and ownership of kitty `k` sit at position `k` of the vectors; a kitty
/// exists exactly when its id is below `count`.
pub struct KittyModule {
    /// The kitty records, indexed by id.
    pub kitties: Vec<Kitty>,
    /// The id allocation counter: the next unassigned id, and the number of
    /// kitties ever created.
    pub count: u32,
    /// The ownership map: `owners[k]` is the owner of kitty `k`.
    pub owners: Vec<u64>,
    /// The parentage map: `parents[k]` holds the two parents of a bred
    /// kitty, and nothing for an originally created one.
    pub parents: Vec<Option<(u32, u32)>>,
    /// The owner index: the pair `(o, k)` is present exactly when `o` owns
    /// kitty `k`.
    pub owner_index: Vec<(u64, u32)>,
    /// The children index: `(p, c)` is present when `c` was bred from `p`.
    pub children_index: Vec<(u32, u32)>,
    /// The breed-pair index: `(x, y)` is present, symmetrically with
    /// `(y, x)`, when `x` and `y` have bred together.
    pub breed_index: Vec<(u32, u32)>,
    /// The notifications emitted so far.
    pub events: Vec<Event>,
}

impl KittyModule {
    /// Kitty `k` exists.
    pub open spec fn has_kitty(self, k: u32) -> bool {
        (k as int) < self.kitties@.len()
    }

    /// The recorded owner of kitty `k`.
    pub open spec fn owner_of(self, k: u32) -> u64
        recommends
            self.has_kitty(k),
    {
        self.owners@[k as int]
    }

    /// The owner index holds the pair `(o, k)`.
    pub open spec fn owns(self, o: u64, k: u32) -> bool {
        self.owner_index@.contains((o, k))
    }

    /// The recorded parents of kitty `k`.
    pub open spec fn parents_of(self, k: u32) -> Option<(u32, u32)>
        recommends
            self.has_kitty(k),
    {
        self.parents@[k as int]
    }

    /// The children index holds the pair `(p, c)`.
    pub open spec fn has_child(self, p: u32, c: u32) -> bool {
        self.children_index@.contains((p, c))
    }

    /// The breed-pair index holds the pair `(x, y)`.
    pub open spec fn has_bred(self, x: u32, y: u32) -> bool {
        self.breed_index@.contains((x, y))
    }

    /// Well-formedness: the counter equals the number of records, the
    /// per-kitty vectors line up, the owner index agrees exactly with the
    /// ownership map, the breed-pair index is symmetric, and the children
    /// index agrees with the parentage records: an entry points from a
    /// recorded parent to an existing bred child, and every bred kitty has
    /// two older, distinct parents with both children entries and the
    /// breed pair recorded.
    pub open spec fn wf(self) -> bool {
        &&& self.count as int == self.kitties@.len()
        &&& self.owners@.len() == self.kitties@.len()
        &&& self.parents@.len() == self.kitties@.len()
        &&& forall|p: (u64, u32)|
            #[trigger] self.owner_index@.contains(p) <==> ((p.1 as int) < self.kitties@.len()
                && self.owners@[p.1 as int] == p.0)
        &&& forall|p: (u32, u32)|
            #[trigger] self.breed_index@.contains(p) <==> self.breed_index@.contains((p.1, p.0))
        &&& forall|p: (u32, u32)|
            #[trigger] self.children_index@.contains(p) ==> ((p.1 as int) < self.kitties@.len()
                && match self.parents@[p.1 as int] {
                Some(ab) => ab.0 == p.0 || ab.1 == p.0,
                None => false,
            })
        &&& forall|c: int|
            0 <= c < self.parents@.len() ==> match #[trigger] self.parents@[c] {
                Some(ab) => {
                    &&& ab.0 != ab.1
                    &&& (ab.0 as int) < c
                    &&& (ab.1 as int) < c
                    &&& self.children_index@.contains((ab.0, c as u32))
                    &&& self.children_index@.contains((ab.1, c as u32))
                    &&& self.breed_index@.contains((ab.0, ab.1))
                },
                None => true,
            }
    }
}

/// What a successful creation does: kitty `k` (the old counter value) now
/// exists with the given genetic code, owned by `sender`, with no recorded
/// parents; everything else is unchanged and a `Create` event is emitted.
pub open spec fn created(
    pre: KittyModule,
    post: KittyModule,
    sender: u64,
    dna: Seq<u8>,
    k: u32,
) -> bool {
    &&& k == pre.count
    &&& post.count as int == k as int + 1
    &&& post.kitties@.len() == pre.kitties@.len() + 1
    &&& post.kitties@[k as int].0@ == dna
    &&& forall|j: int| 0 <= j < pre.kitties@.len() ==> post.kitties@[j] == pre.kitties@[j]
    &&& post.owners@ == pre.owners@.push(sender)
    &&& post.parents@ == pre.parents@.push(None::<(u32, u32)>)
    &&& post.owner_index@ == pre.owner_index@.push((sender, k))
    &&& post.children_index@ == pre.children_index@
    &&& post.breed_index@ == pre.breed_index@
    &&& post.events@ == pre.events@.push(Event::Create(sender, k))
    &&& post.has_kitty(k)
    &&& post.owner_of(k) == sender
    &&& post.owns(sender, k)
    &&& post.parents_of(k) is None
}

/// What a successful transfer does: `sender` owned kitty `k` before; `to`
/// owns it after, in both the ownership map and the owner index; nothing
/// else changes and a `Transfer` event is emitted.
pub open spec fn transferred(
    pre: KittyModule,
    post: KittyModule,
    sender: u64,
    to: u64,
    k: u32,
) -> bool {
    &&& pre.has_kitty(k)
    &&& pre.owner_of(k) == sender
    &&& post.kitties@ == pre.kitties@
    &&& post.count == pre.count
    &&& post.owners@ == pre.owners@.update(k as int, to)
    &&& post.parents@ == pre.parents@
    &&& forall|p: (u64, u32)|
        #[trigger] post.owner_index@.contains(p) <==> (if p.1 == k {
            p.0 == to
        } else {
            pre.owner_index@.contains(p)
        })
    &&& post.children_index@ == pre.children_index@
    &&& post.breed_index@ == pre.breed_index@
    &&& post.events@ == pre.events@.push(Event::Transfer(sender, to, k))
    &&& post.owner_of(k) == to
    &&& post.owns(to, k)
    &&& (sender != to ==> !post.owns(sender, k))
}

/// What a successful breeding does, events aside: the parents exist and
/// differ; child `z` (the old counter value) now exists with the combined
/// genetic code, owned by `sender`; its parentage is recorded, both
/// children entries are present, and both orientations of the breed pair
/// are present.
pub open spec fn bred(
    pre: KittyModule,
    post: KittyModule,
    sender: u64,
    kitty_id_1: u32,
    kitty_id_2: u32,
    selector: Seq<u8>,
    z: u32,
) -> bool {
    &&& pre.has_kitty(kitty_id_1)
    &&& pre.has_kitty(kitty_id_2)
    &&& kitty_id_1 != kitty_id_2
    &&& z == pre.count
    &&& post.count as int == z as int + 1
    &&& post.kitties@.len() == pre.kitties@.len() + 1
    &&& post.kitties@[z as int].0@ == spec_combined_dna(
        pre.kitties@[kitty_id_1 as int].0@,
        pre.kitties@[kitty_id_2 as int].0@,
        selector,
    )
    &&& forall|j: int| 0 <= j < pre.kitties@.len() ==> post.kitties@[j] == pre.kitties@[j]
    &&& post.owners@ == pre.owners@.push(sender)
    &&& post.parents@ == pre.parents@.push(Some((kitty_id_1, kitty_id_2)))
    &&& post.owner_index@ == pre.owner_index@.push((sender, z))
    &&& post.children_index@ == pre.children_index@.push((kitty_id_1, z)).push((kitty_id_2, z))
    &&& post.breed_index@ == pre.breed_index@.push((kitty_id_1, kitty_id_2)).push(
        (kitty_id_2, kitty_id_1),
    )
    &&& post.has_kitty(z)
    &&& post.owner_of(z) == sender
    &&& post.owns(sender, z)
    &&& post.parents_of(z) == Some((kitty_id_1, kitty_id_2))
    &&& post.has_child(kitty_id_1, z)
    &&& post.has_child(kitty_id_2, z)
    &&& post.has_bred(kitty_id_1, kitty_id_2)
    &&& post.has_bred(kitty_id_2, kitty_id_1)
}

/// Rebuilds an owner-index vector without any entry for the given owner
/// and kitty; every other entry is kept.
fn owner_index_without(v: &Vec<(u64, u32)>, owner: u64, kitty_id: u32) -> (out: Vec<(u64, u32)>)
    ensures
        forall|p: (u64, u32)|
            #[trigger] out@.contains(p) <==> (v@.contains(p) && p != (owner, kitty_id)),
{
    let mut out: Vec<(u64, u32)> = Vec::new();
    let mut i: usize = 0;
    while i < v.len()
        invariant
            i <= v@.len(),
            forall|p: (u64, u32)|
                #[trigger] out@.contains(p) <==> (v@.take(i as int).contains(p) && p != (
                owner,
                kitty_id,
                )),
        decreases v@.len() - i,
    {
        let e = v[i];
        proof {
            assert(v@.take(i as int + 1) =~= v@.take(i as int).push(v@[i as int]));
        }
        if e.0 != owner || e.1 != kitty_id {
            out.push(e);
        }
        i += 1;
    }
    proof {
        assert(v@.take(v@.len() as int) =~= v@);
    }
    out
}

/// Whether a pair vector holds the given owner/kitty pair.
fn owner_index_contains(v: &Vec<(u64, u32)>, owner: u64, kitty_id: u32) -> (r: bool)
    ensures
        r == v@.contains((owner, kitty_id)),
{
    let mut i: usize = 0;
    while i < v.len()
        invariant
            i <= v@.len(),
            forall|j: int| 0 <= j < i ==> v@[j] != (owner, kitty_id),
        decreases v@.len() - i,
    {
        let e = v[i];
        if e.0 == owner && e.1 == kitty_id {
            proof {
                assert(v@[i as int] == (owner, kitty_id));
            }
            return true;
        }
        i += 1;
    }
    false
}

/// Whether a pair vector holds the given pair of kitty ids.
fn id_pair_contains(v: &Vec<(u32, u32)>, a: u32, b: u32) -> (r: bool)
    ensures
        r == v@.contains((a, b)),
{
    let mut i: usize = 0;
    while i < v.len()
        invariant
            i <= v@.len(),
            forall|j: int| 0 <= j < i ==> v@[j] != (a, b),
        decreases v@.len() - i,
    {
        let e = v[i];
        if e.0 == a && e.1 == b {
            proof {
                assert(v@[i as int] == (a, b));
            }
            return true;
        }
        i += 1;
    }
    false
}

impl KittyModule {
    /// An empty registry: no kitties, no records, no events.
    pub fn new() -> (r: KittyModule)
        ensures
            r.wf(),
            r.count == 0,
            r.kitties@.len() == 0,
            r.owner_index@.len() == 0,
            r.children_index@.len() == 0,
            r.breed_index@.len() == 0,
            r.events@.len() == 0,
    {
        KittyModule {
            kitties: Vec::new(),
            count: 0,
            owners: Vec::new(),
            parents: Vec::new(),
            owner_index: Vec::new(),
            children_index: Vec::new(),
            breed_index: Vec::new(),
            events: Vec::new(),
        }
    }

    /// The next unassigned id, or `KittiesCountOverflow` when the counter
    /// is already at the maximum representable value.
    fn next_kitty_id(&self) -> (r: Result<u32, Error>)
        ensures
            self.count < u32::MAX ==> r == Ok::<u32, Error>(self.count),
            self.count == u32::MAX ==> r == Err::<u32, Error>(Error::KittiesCountOverflow),
    {
        if self.count == u32::MAX {
            return Err(Error::KittiesCountOverflow);
        }
        Ok(self.count)
    }

    /// Records a new kitty under the next id: the record itself, the
    /// advanced counter, the ownership entry and the owner-index entry, as
    /// one unit.
    pub fn insert_kitty(&mut self, owner: u64, kitty_id: u32, kitty: Kitty)
        requires
            old(self).wf(),
            kitty_id == old(self).count,
            old(self).count < u32::MAX,
        ensures
            final(self).wf(),
            final(self).count == kitty_id + 1,
            final(self).kitties@ == old(self).kitties@.push(kitty),
            final(self).owners@ == old(self).owners@.push(owner),
            final(self).parents@ == old(self).parents@.push(None::<(u32, u32)>),
            final(self).owner_index@ == old(self).owner_index@.push((owner, kitty_id)),
            final(self).children_index@ == old(self).children_index@,
            final(self).breed_index@ == old(self).breed_index@,
            final(self).events@ == old(self).events@,
    {
        self.kitties.push(kitty);
        self.count = kitty_id + 1;
        self.owners.push(owner);
        self.parents.push(None);
        self.owner_index.push((owner, kitty_id));
        proof {
            assert forall|p: (u64, u32)| #[trigger] self.owner_index@.contains(p) <==> ((
            p.1 as int) < self.kitties@.len() && self.owners@[p.1 as int] == p.0) by {
                if self.owner_index@.contains(p) {
                    if old(self).owner_index@.contains(p) {
                        assert((p.1 as int) < old(self).kitties@.len());
                        assert(self.owners@[p.1 as int] == old(self).owners@[p.1 as int]);
                    } else {
                        assert(p == (owner, kitty_id));
                    }
                }
                if (p.1 as int) < self.kitties@.len() && self.owners@[p.1 as int] == p.0 {
                    if (p.1 as int) < old(self).kitties@.len() {
                        assert(old(self).owner_index@.contains(p));
                    } else {
                        assert(p.1 == kitty_id && p.0 == owner);
                        assert(p == (owner, kitty_id));
                    }
                }
            }
        }
    }

    /// Creates a kitty for `sender`, deriving its genetic code from the
    /// given seed material. Returns the new id, which was previously
    /// unassigned; fails with `KittiesCountOverflow`, changing nothing,
    /// when every id is taken.
    pub fn create(&mut self, sender: u64, seed: &[u8; 32], nonce: u64) -> (r: Result<u32, Error>)
        requires
            old(self).wf(),
        ensures
            final(self).wf(),
            old(self).count == u32::MAX ==> r == Err::<u32, Error>(Error::KittiesCountOverflow)
                && *final(self) == *old(self),
            old(self).count < u32::MAX ==> r == Ok::<u32, Error>(old(self).count) && created(
                *old(self),
                *final(self),
                sender,
                blake2_128_of(spec_random_payload(seed@, sender, nonce)),
                old(self).count,
            ),
    {
        let kitty_id = match self.next_kitty_id() {
            Ok(id) => id,
            Err(e) => {
                return Err(e);
            },
        };
        let dna = random_value(seed, sender, nonce);
        let kitty = Kitty(dna);
        self.insert_kitty(sender, kitty_id, kitty);
        self.events.push(Event::Create(sender, kitty_id));
        Ok(kitty_id)
    }

    /// Transfers kitty `kitty_id` from `sender` to `to`. Fails with
    /// `InvalidKittyId` when the kitty does not exist and with
    /// `KittyNotOwn` when `sender` is not its owner; every failure leaves
    /// the registry unchanged.
    pub fn transfer(&mut self, sender: u64, to: u64, kitty_id: u32) -> (r: Result<(), Error>)
        requires
            old(self).wf(),
        ensures
            final(self).wf(),
            r is Ok <==> old(self).has_kitty(kitty_id) && old(self).owner_of(kitty_id) == sender,
            !old(self).has_kitty(kitty_id) ==> r == Err::<(), Error>(Error::InvalidKittyId)
                && *final(self) == *old(self),
            old(self).has_kitty(kitty_id) && old(self).owner_of(kitty_id) != sender ==> r == Err::<
                (),
                Error,
            >(Error::KittyNotOwn) && *final(self) == *old(self),
            r is Ok ==> transferred(*old(self), *final(self), sender, to, kitty_id),
    {
        if !(kitty_id < self.count) {
            return Err(Error::InvalidKittyId);
        }
        let owner = self.owners[kitty_id as usize];
        if owner != sender {
            return Err(Error::KittyNotOwn);
        }
        self.owners[kitty_id as usize] = to;
        let pruned = owner_index_without(&self.owner_index, sender, kitty_id);
        self.owner_index = pruned;
        self.owner_index.push((to, kitty_id));
        self.events.push(Event::Transfer(sender, to, kitty_id));
        proof {
            assert forall|p: (u64, u32)| #[trigger] self.owner_index@.contains(p) <==> (if p.1
                == kitty_id {
                p.0 == to
            } else {
                old(self).owner_index@.contains(p)
            }) by {
                if p.1 == kitty_id {
                    if self.owner_index@.contains(p) && p != (to, kitty_id) {
                        assert(old(self).owner_index@.contains(p) && p != (sender, kitty_id));
                        assert(p.0 == old(self).owners@[kitty_id as int]);
                        assert(false);
                    }
                    if p.0 == to {
                        assert(p == (to, kitty_id));
                    }
                }
            }
            assert forall|p: (u64, u32)| #[trigger] self.owner_index@.contains(p) <==> ((
            p.1 as int) < self.kitties@.len() && self.owners@[p.1 as int] == p.0) by {
                if p.1 == kitty_id {
                    assert(self.owners@[p.1 as int] == to);
                } else {
                    assert(old(self).owner_index@.contains(p) <==> ((p.1 as int) < old(
                        self,
                    ).kitties@.len() && old(self).owners@[p.1 as int] == p.0));
                }
            }
        }
        Ok(())
    }

    /// Breeds a child for `sender` from two existing, distinct parents,
    /// combining their genetic codes byte by byte under the selector.
    /// Records parentage, both children entries and both orientations of
    /// the breed pair. Every failure leaves the registry unchanged.
    pub fn do_breed(
        &mut self,
        sender: u64,
        kitty_id_1: u32,
        kitty_id_2: u32,
        selector: &[u8; 16],
    ) -> (r: Result<u32, Error>)
        requires
            old(self).wf(),
        ensures
            final(self).wf(),
            !old(self).has_kitty(kitty_id_1) || !old(self).has_kitty(kitty_id_2) ==> r == Err::<
                u32,
                Error,
            >(Error::InvalidKittyId) && *final(self) == *old(self),
            old(self).has_kitty(kitty_id_1) && old(self).has_kitty(kitty_id_2) && kitty_id_1
                == kitty_id_2 ==> r == Err::<u32, Error>(Error::RequireDifferentParent) && *final(self) == *old(self),
            old(self).has_kitty(kitty_id_1) && old(self).has_kitty(kitty_id_2) && kitty_id_1
                != kitty_id_2 && old(self).count == u32::MAX ==> r == Err::<u32, Error>(
                Error::KittiesCountOverflow,
            ) && *final(self) == *old(self),
            old(self).has_kitty(kitty_id_1) && old(self).has_kitty(kitty_id_2) && kitty_id_1
                != kitty_id_2 && old(self).count < u32::MAX ==> r == Ok::<u32, Error>(
                old(self).count,
            ) && bred(
                *old(self),
                *final(self),
                sender,
                kitty_id_1,
                kitty_id_2,
                selector@,
                old(self).count,
            ) && final(self).events@ == old(self).events@,
    {
        if !(kitty_id_1 < self.count) {
            return Err(Error::InvalidKittyId);
        }
        if !(kitty_id_2 < self.count) {
            return Err(Error::InvalidKittyId);
        }
        if kitty_id_1 == kitty_id_2 {
            return Err(Error::RequireDifferentParent);
        }
        let kitty_id = match self.next_kitty_id() {
            Ok(id) => id,
            Err(e) => {
                return Err(e);
            },
        };
        let dna1 = self.kitties[kitty_id_1 as usize].0;
        let dna2 = self.kitties[kitty_id_2 as usize].0;
        let new_dna = [
            combine_dna(dna1[0], dna2[0], selector[0]),
            combine_dna(dna1[1], dna2[1], selector[1]),
            combine_dna(dna1[2], dna2[2], selector[2]),
            combine_dna(dna1[3], dna2[3], selector[3]),
            combine_dna(dna1[4], dna2[4], selector[4]),
            combine_dna(dna1[5], dna2[5], selector[5]),
            combine_dna(dna1[6], dna2[6], selector[6]),
            combine_dna(dna1[7], dna2[7], selector[7]),
            combine_dna(dna1[8], dna2[8], selector[8]),
            combine_dna(dna1[9], dna2[9], selector[9]),
            combine_dna(dna1[10], dna2[10], selector[10]),
            combine_dna(dna1[11], dna2[11], selector[11]),
            combine_dna(dna1[12], dna2[12], selector[12]),
            combine_dna(dna1[13], dna2[13], selector[13]),
            combine_dna(dna1[14], dna2[14], selector[14]),
            combine_dna(dna1[15], dna2[15], selector[15]),
        ];
        proof {
            assert(new_dna@ =~= spec_combined_dna(dna1@, dna2@, selector@));
        }
        self.insert_kitty(sender, kitty_id, Kitty(new_dna));
        let last = self.parents.len() - 1;
        self.parents[last] = Some((kitty_id_1, kitty_id_2));
        proof {
            assert(self.parents@ =~= old(self).parents@.push(Some((kitty_id_1, kitty_id_2))));
        }
        self.children_index.push((kitty_id_1, kitty_id));
        self.children_index.push((kitty_id_2, kitty_id));
        self.breed_index.push((kitty_id_1, kitty_id_2));
        self.breed_index.push((kitty_id_2, kitty_id_1));
        proof {
            assert forall|p: (u32, u32)| #[trigger] self.breed_index@.contains(p) <==> self
                .breed_index@.contains((p.1, p.0)) by {
                assert(old(self).breed_index@.contains(p) <==> old(self).breed_index@.contains(
                    (p.1, p.0),
                ));
                assert((p.1, p.0).1 == p.0 && (p.1, p.0).0 == p.1);
                if p == (kitty_id_1, kitty_id_2) {
                    assert(self.breed_index@.contains((kitty_id_2, kitty_id_1)));
                }
                if p == (kitty_id_2, kitty_id_1) {
                    assert(self.breed_index@.contains((kitty_id_1, kitty_id_2)));
                }
            }
        }
        Ok(kitty_id)
    }

    /// Breeds a child and emits the `Breed` event; the selector is derived
    /// from the given seed material exactly as a fresh genetic code would
    /// be.
    pub fn breed(
        &mut self,
        sender: u64,
        kitty_id_1: u32,
        kitty_id_2: u32,
        seed: &[u8; 32],
        nonce: u64,
    ) -> (r: Result<u32, Error>)
        requires
            old(self).wf(),
        ensures
            final(self).wf(),
            !old(self).has_kitty(kitty_id_1) || !old(self).has_kitty(kitty_id_2) ==> r == Err::<
                u32,
                Error,
            >(Error::InvalidKittyId) && *final(self) == *old(self),
            old(self).has_kitty(kitty_id_1) && old(self).has_kitty(kitty_id_2) && kitty_id_1
                == kitty_id_2 ==> r == Err::<u32, Error>(Error::RequireDifferentParent) && *final(self) == *old(self),
            old(self).has_kitty(kitty_id_1) && old(self).has_kitty(kitty_id_2) && kitty_id_1
                != kitty_id_2 && old(self).count == u32::MAX ==> r == Err::<u32, Error>(
                Error::KittiesCountOverflow,
            ) && *final(self) == *old(self),
            old(self).has_kitty(kitty_id_1) && old(self).has_kitty(kitty_id_2) && kitty_id_1
                != kitty_id_2 && old(self).count < u32::MAX ==> r == Ok::<u32, Error>(
                old(self).count,
            ) && bred(
                *old(self),
                *final(self),
                sender,
                kitty_id_1,
                kitty_id_2,
                blake2_128_of(spec_random_payload(seed@, sender, nonce)),
                old(self).count,
            ) && final(self).events@ == old(self).events@.push(
                Event::Breed(sender, old(self).count, kitty_id_1, kitty_id_2),
            ),
    {
        let selector = random_value(seed, sender, nonce);
        let new_kitty_id = match self.do_breed(sender, kitty_id_1, kitty_id_2, &selector) {
            Ok(id) => id,
            Err(e) => {
                return Err(e);
            },
        };
        self.events.push(Event::Breed(sender, new_kitty_id, kitty_id_1, kitty_id_2));
        Ok(new_kitty_id)
    }

    /// The id allocation counter: the number of kitties ever created.
    pub fn kitties_count(&self) -> (r: u32)
        ensures
            r == self.count,
    {
        self.count
    }

    /// The record of kitty `kitty_id`, when it exists.
    pub fn kitties(&self, kitty_id: u32) -> (r: Option<Kitty>)
        requires
            self.wf(),
        ensures
            r == (if self.has_kitty(kitty_id) {
                Some(self.kitties@[kitty_id as int])
            } else {
                None::<Kitty>
            }),
    {
        if kitty_id < self.count {
            Some(self.kitties[kitty_id as usize])
        } else {
            None
        }
    }

    /// The owner of kitty `kitty_id`, when it exists.
    pub fn kitties_owners(&self, kitty_id: u32) -> (r: Option<u64>)
        requires
            self.wf(),
        ensures
            r == (if self.has_kitty(kitty_id) {
                Some(self.owner_of(kitty_id))
            } else {
                None::<u64>
            }),
    {
        if kitty_id < self.count {
            Some(self.owners[kitty_id as usize])
        } else {
            None
        }
    }

    /// Whether the owner index holds an entry for `owner` and `kitty_id`.
    pub fn owner_kitties(&self, owner: u64, kitty_id: u32) -> (r: bool)
        ensures
            r == self.owns(owner, kitty_id),
    {
        owner_index_contains(&self.owner_index, owner, kitty_id)
    }

    /// The recorded parents of kitty `kitty_id`, when it exists and was
    /// bred.
    pub fn kitties_parents(&self, kitty_id: u32) -> (r: Option<(u32, u32)>)
        requires
            self.wf(),
        ensures
            r == (if self.has_kitty(kitty_id) {
                self.parents_of(kitty_id)
            } else {
                None::<(u32, u32)>
            }),
    {
        if kitty_id < self.count {
            self.parents[kitty_id as usize]
        } else {
            None
        }
    }

    /// Whether the children index holds an entry for `parent` and `child`.
    pub fn kitties_children(&self, parent: u32, child: u32) -> (r: bool)
        ensures
            r == self.has_child(parent, child),
    {
        id_pair_contains(&self.children_index, parent, child)
    }

    /// Whether the breed-pair index holds an entry for `a` and `b`.
    pub fn kitties_breed(&self, a: u32, b: u32) -> (r: bool)
        ensures
            r == self.has_bred(a, b),
    {
        id_pair_contains(&self.breed_index, a, b)
    }

    /// The notifications emitted so far, oldest first.
    pub fn events(&self) -> (r: &Vec<Event>)
        ensures
            r@ == self.events@,
    {
        &self.events
    }
}

/// Ids allocated by consecutive successful creations are consecutive: the
/// registry hands out 0, 1, 2, ... with no gap and no repeat.
pub proof fn lemma_create_ids_sequential(
    s0: KittyModule,
    s1: KittyModule,
    s2: KittyModule,
    sender1: u64,
    sender2: u64,
    dna1: Seq<u8>,
    dna2: Seq<u8>,
    k0: u32,
    k1: u32,
)
    requires
        created(s0, s1, sender1, dna1, k0),
        created(s1, s2, sender2, dna2, k1),
    ensures
        k1 == k0 + 1,
{
}

/// After a creation returns id `k`, the caller owns `k` in both the
/// ownership map and the owner index, and no other owner-index entry for
/// `k` exists.
pub proof fn lemma_create_ownership(
    pre: KittyModule,
    post: KittyModule,
    sender: u64,
    dna: Seq<u8>,
    k: u32,
)
    requires
        pre.wf(),
        created(pre, post, sender, dna, k),
    ensures
        !pre.has_kitty(k),
        post.has_kitty(k),
        post.owner_of(k) == sender,
        post.owns(sender, k),
        forall|o: u64| #[trigger] post.owns(o, k) ==> o == sender,
{
    assert(post.owns(sender, k));
    assert forall|o: u64| #[trigger] post.owns(o, k) implies o == sender by {
        if pre.owner_index@.contains((o, k)) {
            assert((k as int) < pre.kitties@.len());
        }
    }
}

/// After a successful transfer away, the new owner holds the kitty and the
/// previous owner does not, so a repeated transfer by the previous owner
/// fails the ownership check.
pub proof fn lemma_transfer_moves_ownership(
    pre: KittyModule,
    post: KittyModule,
    a: u64,
    b: u64,
    k: u32,
)
    requires
        pre.wf(),
        transferred(pre, post, a, b, k),
        a != b,
    ensures
        post.has_kitty(k),
        post.owner_of(k) == b,
        post.owns(b, k),
        !post.owns(a, k),
{
    assert(post.owner_index@.contains((b, k)) <==> true);
    assert(post.owner_index@.contains((a, k)) <==> false);
}

/// A transfer of a kitty to its current owner leaves the ownership map and
/// the owner index unchanged: no entry is duplicated and none goes
/// missing.
pub proof fn lemma_self_transfer_idempotent(pre: KittyModule, post: KittyModule, a: u64, k: u32)
    requires
        pre.wf(),
        transferred(pre, post, a, a, k),
    ensures
        post.owners@ == pre.owners@,
        forall|o: u64, j: u32| #[trigger] post.owns(o, j) <==> #[trigger] pre.owns(o, j),
{
    assert(post.owners@ =~= pre.owners@);
    assert forall|o: u64, j: u32| #[trigger] post.owns(o, j) <==> #[trigger] pre.owns(o, j) by {
        if j == k {
            assert(pre.owner_index@.contains((o, k)) <==> ((k as int) < pre.kitties@.len()
                && pre.owners@[k as int] == o));
        }
    }
}

/// The breed-pair index is symmetric: one orientation of a pair is present
/// exactly when the other is.
pub proof fn lemma_breed_symmetry(s: KittyModule, x: u32, y: u32)
    requires
        s.wf(),
    ensures
        s.has_bred(x, y) <==> s.has_bred(y, x),
{
    assert(s.breed_index@.contains((x, y)) <==> s.breed_index@.contains(((x, y).1, (x, y).0)));
}

} // verus!
