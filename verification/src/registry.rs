//! The set of sources that the readiness poll currently watches.
//!
//! The registry is a model of what has been handed to the poll. It keeps
//! three promises at all times: no identifier is registered twice, no role is
//! held by two sources, and a listener and a connection are never registered
//! together (the accepted connection takes the listener's place).

use vstd::prelude::*;
use crate::endpoint::EndpointRole;

verus! {

/// One watched source: its identifier, its role and the operating system's
/// handle for it.
#[derive(Clone, Copy, Debug, PartialEq, Eq, Structural)]
pub struct RegisteredSource {
    pub id: usize,
    pub role: EndpointRole,
    pub handle: i32,
}

/// Why the registry refused a request.
#[derive(Clone, Copy, Debug, PartialEq, Eq, Structural)]
pub enum RegistryError {
    /// The identifier is already registered; an entry is never overwritten.
    AlreadyRegistered,
    /// Another source already holds the role.
    RoleOccupied,
    /// A listener or a connection is registered, and the other was asked for.
    PeerSlotOccupied,
    /// Nothing is registered under the identifier.
    NotRegistered,
}

/// Some entry of `s` carries the identifier `id`.
pub open spec fn has_id(s: Seq<RegisteredSource>, id: usize) -> bool {
    exists|i: int| 0 <= i < s.len() && #[trigger] s[i].id == id
}

/// Some entry of `s` carries the role `role`.
pub open spec fn has_role(s: Seq<RegisteredSource>, role: EndpointRole) -> bool {
    exists|i: int| 0 <= i < s.len() && #[trigger] s[i].role == role
}

/// The listener and the connection share the one peer slot.
pub open spec fn uses_peer_slot(role: EndpointRole) -> bool {
    role == EndpointRole::Listener || role == EndpointRole::Connection
}

/// Some entry of `s` occupies the peer slot.
pub open spec fn peer_slot_taken(s: Seq<RegisteredSource>) -> bool {
    has_role(s, EndpointRole::Listener) || has_role(s, EndpointRole::Connection)
}

/// The three promises of the registry, over its entries.
pub open spec fn well_formed(s: Seq<RegisteredSource>) -> bool {
    &&& forall|i: int, j: int|
        0 <= i < s.len() && 0 <= j < s.len() && i != j ==> #[trigger] s[i].id != #[trigger] s[j].id
    &&& forall|i: int, j: int|
        0 <= i < s.len() && 0 <= j < s.len() && i != j ==> #[trigger] s[i].role
            != #[trigger] s[j].role
    &&& !(has_role(s, EndpointRole::Listener) && has_role(s, EndpointRole::Connection))
}

/// The reason for which registering `id` under `role` is refused, if it is.
/// An occupied identifier is reported before an occupied role, and that
/// before an occupied peer slot.
pub open spec fn register_refusal(s: Seq<RegisteredSource>, id: usize, role: EndpointRole) -> Option<
    RegistryError,
> {
    if has_id(s, id) {
        Some(RegistryError::AlreadyRegistered)
    } else if has_role(s, role) {
        Some(RegistryError::RoleOccupied)
    } else if uses_peer_slot(role) && peer_slot_taken(s) {
        Some(RegistryError::PeerSlotOccupied)
    } else {
        None
    }
}

/// The position of the entry with identifier `id`. Meaningful where
/// `has_id(s, id)` holds; in a well-formed registry it is the only one.
pub open spec fn position_of(s: Seq<RegisteredSource>, id: usize) -> int {
    choose|i: int| 0 <= i < s.len() && #[trigger] s[i].id == id
}

/// The entry registered under `id`, if there is one.
pub open spec fn lookup(s: Seq<RegisteredSource>, id: usize) -> Option<RegisteredSource> {
    if has_id(s, id) {
        Some(s[position_of(s, id)])
    } else {
        None
    }
}

/// The entries that are left when the one under `id` is taken out; all of
/// them where `id` is not registered.
pub open spec fn without(s: Seq<RegisteredSource>, id: usize) -> Seq<RegisteredSource> {
    if has_id(s, id) {
        s.remove(position_of(s, id))
    } else {
        s
    }
}

/// In a well-formed registry an identifier is found at one position only.
pub proof fn lemma_position_is_unique(s: Seq<RegisteredSource>, id: usize, i: int)
    requires
        well_formed(s),
        0 <= i < s.len(),
        s[i].id == id,
    ensures
        has_id(s, id),
        position_of(s, id) == i,
        lookup(s, id) == Some(s[i]),
{
    let p = position_of(s, id);
    assert(0 <= p < s.len() && s[p].id == id);
    if p != i {
        assert(s[p].id != s[i].id);
    }
}

/// Taking an entry out of a well-formed registry leaves a well-formed
/// registry in which that identifier and that role are free, and every other
/// identifier and role is registered exactly as before.
pub proof fn lemma_without_keeps_the_rest(s: Seq<RegisteredSource>, id: usize)
    requires
        well_formed(s),
        has_id(s, id),
    ensures
        well_formed(without(s, id)),
        without(s, id).len() == s.len() - 1,
        !has_id(without(s, id), id),
        !has_role(without(s, id), s[position_of(s, id)].role),
        forall|other: usize| other != id ==> has_id(without(s, id), other) == has_id(s, other),
        forall|other: usize| other != id ==> lookup(without(s, id), other) == lookup(s, other),
        forall|role: EndpointRole|
            role != s[position_of(s, id)].role ==> has_role(without(s, id), role) == has_role(
                s,
                role,
            ),
{
    let p = position_of(s, id);
    let t = s.remove(p);
    assert(0 <= p < s.len() && s[p].id == id);
    assert(forall|k: int| 0 <= k < t.len() ==> t[k] == s[if k < p { k } else { k + 1 }]);
    assert(forall|k: int|
        0 <= k < s.len() && k != p ==> s[k] == t[if k < p {
            k
        } else {
            k - 1
        }]);
    lemma_stays_well_formed(s, p);
    if has_id(t, id) {
        let k = choose|k: int| 0 <= k < t.len() && #[trigger] t[k].id == id;
        let k0 = if k < p { k } else { k + 1 };
        assert(s[k0].id == s[p].id);
    }
    if has_role(t, s[p].role) {
        let k = choose|k: int| 0 <= k < t.len() && #[trigger] t[k].role == s[p].role;
        let k0 = if k < p { k } else { k + 1 };
        assert(s[k0].role == s[p].role);
    }
    assert forall|other: usize| other != id implies has_id(t, other) == has_id(s, other) && lookup(
        t,
        other,
    ) == lookup(s, other) by {
        if has_id(s, other) {
            let k = position_of(s, other);
            assert(0 <= k < s.len() && s[k].id == other);
            let k1 = if k < p { k } else { k - 1 };
            assert(t[k1].id == other);
            lemma_position_is_unique(t, other, k1);
        }
        if has_id(t, other) {
            let k = position_of(t, other);
            assert(0 <= k < t.len() && t[k].id == other);
            let k0 = if k < p { k } else { k + 1 };
            assert(s[k0].id == other);
        }
    }
    assert forall|role: EndpointRole| role != s[p].role implies has_role(t, role) == has_role(
        s,
        role,
    ) by {
        if has_role(s, role) {
            let k = choose|k: int| 0 <= k < s.len() && #[trigger] s[k].role == role;
            let k1 = if k < p { k } else { k - 1 };
            assert(t[k1].role == role);
        }
        if has_role(t, role) {
            let k = choose|k: int| 0 <= k < t.len() && #[trigger] t[k].role == role;
            let k0 = if k < p { k } else { k + 1 };
            assert(s[k0].role == role);
        }
    }
}

/// Removing any one position keeps the three promises.
proof fn lemma_stays_well_formed(s: Seq<RegisteredSource>, p: int)
    requires
        well_formed(s),
        0 <= p < s.len(),
    ensures
        well_formed(s.remove(p)),
{
    let t = s.remove(p);
    assert(forall|k: int| 0 <= k < t.len() ==> t[k] == s[if k < p { k } else { k + 1 }]);
    assert forall|role: EndpointRole| has_role(t, role) implies has_role(s, role) by {
        let k = choose|k: int| 0 <= k < t.len() && #[trigger] t[k].role == role;
        let k0 = if k < p { k } else { k + 1 };
        assert(s[k0].role == role);
    }
}

/// Adding an entry that `register_refusal` lets through keeps the three
/// promises, makes the entry the one found under its identifier, and leaves
/// every other identifier and role registered exactly as before.
pub proof fn lemma_push_keeps_the_rest(s: Seq<RegisteredSource>, entry: RegisteredSource)
    requires
        well_formed(s),
        register_refusal(s, entry.id, entry.role) is None,
    ensures
        well_formed(s.push(entry)),
        lookup(s.push(entry), entry.id) == Some(entry),
        has_role(s.push(entry), entry.role),
        forall|other: usize|
            other != entry.id ==> has_id(s.push(entry), other) == has_id(s, other),
        forall|other: usize|
            other != entry.id ==> lookup(s.push(entry), other) == lookup(s, other),
        forall|role: EndpointRole|
            role != entry.role ==> has_role(s.push(entry), role) == has_role(s, role),
{
    let t = s.push(entry);
    let n = s.len() as int;
    assert(t[n] == entry);
    assert(forall|k: int| 0 <= k < n ==> t[k] == s[k]);
    assert forall|role: EndpointRole| role != entry.role implies has_role(t, role) == has_role(
        s,
        role,
    ) by {
        if has_role(s, role) {
            let k = choose|k: int| 0 <= k < s.len() && #[trigger] s[k].role == role;
            assert(t[k].role == role);
        }
        if has_role(t, role) {
            let k = choose|k: int| 0 <= k < t.len() && #[trigger] t[k].role == role;
            assert(k != n);
            assert(s[k].role == role);
        }
    }
    assert forall|i: int, j: int| 0 <= i < t.len() && 0 <= j < t.len() && i != j implies #[trigger] t[i].id
        != #[trigger] t[j].id && t[i].role != t[j].role by {
        if i == n {
            assert(s[j].id != entry.id);
            assert(s[j].role != entry.role);
        } else if j == n {
            assert(s[i].id != entry.id);
            assert(s[i].role != entry.role);
        }
    }
    assert(well_formed(t));
    lemma_position_is_unique(t, entry.id, n);
    assert forall|other: usize| other != entry.id implies has_id(t, other) == has_id(s, other)
        && lookup(t, other) == lookup(s, other) by {
        if has_id(s, other) {
            let k = position_of(s, other);
            assert(0 <= k < s.len() && s[k].id == other);
            assert(t[k].id == other);
            lemma_position_is_unique(t, other, k);
        }
        if has_id(t, other) {
            let k = position_of(t, other);
            assert(0 <= k < t.len() && t[k].id == other);
            assert(k != n);
            assert(s[k].id == other);
        }
    }
}

/// The registry itself. Entries are kept in the order of their registration.
pub struct Registry {
    entries: Vec<RegisteredSource>,
}

impl View for Registry {
    type V = Seq<RegisteredSource>;

    closed spec fn view(&self) -> Seq<RegisteredSource> {
        self.entries@
    }
}

impl Registry {
    /// The registry keeps its three promises.
    pub open spec fn wf(&self) -> bool {
        well_formed(self@)
    }

    /// A registry that watches nothing.
    pub fn new() -> (created: Registry)
        ensures
            created@ == Seq::<RegisteredSource>::empty(),
            created.wf(),
    {
        Registry { entries: Vec::new() }
    }

    /// How many sources are registered.
    pub fn len(&self) -> (n: usize)
        ensures
            n == self@.len(),
    {
        self.entries.len()
    }

    /// Where the entry with identifier `id` stands, if anywhere.
    fn position_by_id(&self, id: usize) -> (found: Option<usize>)
        ensures
            match found {
                Some(p) => p < self@.len() && self@[p as int].id == id,
                None => !has_id(self@, id),
            },
    {
        let mut k: usize = 0;
        while k < self.entries.len()
            invariant
                k <= self.entries@.len(),
                forall|j: int| 0 <= j < k ==> self.entries@[j].id != id,
            decreases self.entries@.len() - k,
        {
            if self.entries[k].id == id {
                return Some(k);
            }
            k += 1;
        }
        None
    }

    /// Whether some registered source holds `role`.
    pub fn holds_role(&self, role: EndpointRole) -> (held: bool)
        ensures
            held == has_role(self@, role),
    {
        let mut k: usize = 0;
        while k < self.entries.len()
            invariant
                k <= self.entries@.len(),
                forall|j: int| 0 <= j < k ==> self.entries@[j].role != role,
            decreases self.entries@.len() - k,
        {
            if self.entries[k].role == role {
                return true;
            }
            k += 1;
        }
        false
    }

    /// The entry registered under `id`, if there is one.
    pub fn find(&self, id: usize) -> (found: Option<RegisteredSource>)
        requires
            self.wf(),
        ensures
            found == lookup(self@, id),
    {
        match self.position_by_id(id) {
            Some(p) => {
                proof {
                    lemma_position_is_unique(self@, id, p as int);
                }
                Some(self.entries[p])
            },
            None => None,
        }
    }

    /// Starts watching a source. The request is refused, and the registry
    /// left as it was, exactly where `register_refusal` names a reason;
    /// otherwise the new entry is added behind the others.
    pub fn register(&mut self, id: usize, role: EndpointRole, handle: i32) -> (res: Result<
        (),
        RegistryError,
    >)
        requires
            old(self).wf(),
        ensures
            final(self).wf(),
            match register_refusal(old(self)@, id, role) {
                Some(reason) => res == Err::<(), RegistryError>(reason) && final(self)@ == old(
                    self,
                )@,
                None => res is Ok && final(self)@ == old(self)@.push(
                    (RegisteredSource { id, role, handle }),
                ),
            },
    {
        if self.position_by_id(id).is_some() {
            return Err(RegistryError::AlreadyRegistered);
        }
        if self.holds_role(role) {
            return Err(RegistryError::RoleOccupied);
        }
        let peer = match role {
            EndpointRole::Terminal => false,
            EndpointRole::Listener => true,
            EndpointRole::Connection => true,
        };
        if peer && (self.holds_role(EndpointRole::Listener) || self.holds_role(
            EndpointRole::Connection,
        )) {
            return Err(RegistryError::PeerSlotOccupied);
        }
        proof {
            lemma_push_keeps_the_rest(self@, RegisteredSource { id, role, handle });
        }
        self.entries.push(RegisteredSource { id, role, handle });
        Ok(())
    }

    /// Stops watching the source registered under `id` and hands its entry
    /// back. Where nothing is registered under `id` the registry is left as
    /// it was and the request fails with `NotRegistered`.
    pub fn deregister(&mut self, id: usize) -> (res: Result<RegisteredSource, RegistryError>)
        requires
            old(self).wf(),
        ensures
            final(self).wf(),
            final(self)@ == without(old(self)@, id),
            match lookup(old(self)@, id) {
                Some(entry) => res == Ok::<RegisteredSource, RegistryError>(entry),
                None => res == Err::<RegisteredSource, RegistryError>(
                    RegistryError::NotRegistered,
                ),
            },
    {
        match self.position_by_id(id) {
            Some(p) => {
                proof {
                    lemma_position_is_unique(self@, id, p as int);
                    lemma_without_keeps_the_rest(self@, id);
                }
                let entry = self.entries.remove(p);
                Ok(entry)
            },
            None => Err(RegistryError::NotRegistered),
        }
    }
}

} // verus!
