//! The registry itself: its operations, each proved to do to the state what
//! the corresponding operation of `spec.rs` does.
use vstd::prelude::*;

use crate::laws::{
    extends_reflexive, init_keeps_valid, record_event_law, register_participant_law,
    register_product_law, set_product_status_law, transfer_product_law,
};
use crate::spec::{page_of, ProvenanceView};
use crate::types::{
    Address, Error, Event, EventView, Participant, ParticipantView, Product, ProductStatus, ProductView,
    Role,
};

verus! {

/// No two participants share an address.
pub open spec fn distinct_addresses(s: Seq<Participant>) -> bool {
    forall|i: int, j: int|
        0 <= i < s.len() && 0 <= j < s.len() && i != j ==> #[trigger] s[i].address@ != #[trigger] s[j].address@
}

/// The participants of `s`, looked up by address.
pub open spec fn participant_map(s: Seq<Participant>) -> Map<Seq<char>, ParticipantView> {
    Map::new(
        |a: Seq<char>| exists|i: int| 0 <= i < s.len() && #[trigger] s[i].address@ == a,
        |a: Seq<char>| s[choose|i: int| 0 <= i < s.len() && #[trigger] s[i].address@ == a]@,
    )
}

/// The abstract state that the stored parts of a registry stand for.
pub open spec fn parts_view(
    admin: Option<Address>,
    participants: Seq<Participant>,
    products: Seq<Product>,
    events: Seq<Vec<Event>>,
) -> ProvenanceView {
    ProvenanceView {
        admin: match admin {
            Some(a) => Some(a@),
            None => None,
        },
        participants: participant_map(participants),
        products: products.map_values(|p: Product| p@),
        events: events.map_values(|h: Vec<Event>| h@.map_values(|e: Event| e@)),
    }
}

proof fn lemma_map_lookup(s: Seq<Participant>, i: int)
    requires
        distinct_addresses(s),
        0 <= i < s.len(),
    ensures
        participant_map(s).contains_key(s[i].address@),
        participant_map(s)[s[i].address@] == s[i]@,
{
    let a = s[i].address@;
    assert(participant_map(s).contains_key(a));
    let j = choose|j: int| 0 <= j < s.len() && #[trigger] s[j].address@ == a;
    assert(j == i);
}

proof fn lemma_map_push(s: Seq<Participant>, p: Participant)
    requires
        distinct_addresses(s),
        !participant_map(s).contains_key(p.address@),
    ensures
        distinct_addresses(s.push(p)),
        participant_map(s.push(p)) == participant_map(s).insert(p.address@, p@),
{
    let t = s.push(p);
    assert forall|i: int| 0 <= i < s.len() implies #[trigger] s[i].address@ != p.address@ by {
        lemma_map_lookup(s, i);
    }
    assert(distinct_addresses(t)) by {
        assert forall|i: int, j: int|
            0 <= i < t.len() && 0 <= j < t.len() && i != j implies #[trigger] t[i].address@
            != #[trigger] t[j].address@ by {
            if i < s.len() && j < s.len() {
                assert(t[i] == s[i] && t[j] == s[j]);
            } else if i < s.len() {
                assert(t[i] == s[i]);
            } else {
                assert(t[j] == s[j]);
            }
        }
    }
    let m = participant_map(s).insert(p.address@, p@);
    assert forall|a: Seq<char>| #[trigger] participant_map(t).contains_key(a) <==> m.contains_key(a) by {
        if participant_map(t).contains_key(a) {
            let i = choose|i: int| 0 <= i < t.len() && #[trigger] t[i].address@ == a;
            if i < s.len() {
                assert(t[i] == s[i]);
                assert(participant_map(s).contains_key(a));
            }
        }
        if participant_map(s).contains_key(a) {
            let i = choose|i: int| 0 <= i < s.len() && #[trigger] s[i].address@ == a;
            assert(t[i] == s[i]);
            assert(participant_map(t).contains_key(a));
        }
        if a == p.address@ {
            assert(t[s.len() as int] == p);
            assert(participant_map(t).contains_key(a));
        }
    }
    assert forall|a: Seq<char>| #[trigger] participant_map(t).contains_key(a) implies participant_map(
        t,
    )[a] == m[a] by {
        let i = choose|i: int| 0 <= i < t.len() && #[trigger] t[i].address@ == a;
        lemma_map_lookup(t, i);
        if i < s.len() {
            assert(t[i] == s[i]);
            lemma_map_lookup(s, i);
        }
    }
    assert(participant_map(t) =~= m);
}

/// The stored parts form a registry that the operations can reach.
pub open spec fn parts_valid(
    admin: Option<Address>,
    participants: Seq<Participant>,
    products: Seq<Product>,
    events: Seq<Vec<Event>>,
) -> bool {
    &&& distinct_addresses(participants)
    &&& parts_view(admin, participants, products, events).valid()
}

/// Every participant is filed under its own address.
proof fn lemma_map_addresses(s: Seq<Participant>)
    ensures
        forall|a: Seq<char>| #[trigger]
            participant_map(s).contains_key(a) ==> participant_map(s)[a].address == a,
{
}

/// Whether some participant of `participants` has the address `address`.
fn holds_address(participants: &Vec<Participant>, address: &Address) -> (b: bool)
    ensures
        b == participant_map(participants@).contains_key(address@),
{
    let mut i: usize = 0;
    while i < participants.len()
        invariant
            i <= participants@.len(),
            forall|j: int| 0 <= j < i ==> #[trigger] participants@[j].address@ != address@,
        decreases participants@.len() - i,
    {
        if participants[i].address.same_as(address) {
            assert(participant_map(participants@).contains_key(address@));
            return true;
        }
        i += 1;
    }
    false
}

/// Whether no two participants share an address.
fn addresses_distinct(participants: &Vec<Participant>) -> (b: bool)
    ensures
        b == distinct_addresses(participants@),
{
    let mut i: usize = 0;
    while i < participants.len()
        invariant
            i <= participants@.len(),
            forall|k: int, j: int|
                0 <= k < i && 0 <= j < participants@.len() && k != j ==> #[trigger] participants@[k].address@
                    != #[trigger] participants@[j].address@,
        decreases participants@.len() - i,
    {
        let mut j: usize = 0;
        while j < participants.len()
            invariant
                i < participants@.len(),
                j <= participants@.len(),
                forall|k: int, m: int|
                    0 <= k < i && 0 <= m < participants@.len() && k != m ==> #[trigger] participants@[k].address@
                        != #[trigger] participants@[m].address@,
                forall|m: int|
                    0 <= m < j && m != i ==> participants@[i as int].address@ != #[trigger] participants@[m].address@,
            decreases participants@.len() - j,
        {
            if j != i && participants[i].address.same_as(&participants[j].address) {
                return false;
            }
            j += 1;
        }
        i += 1;
    }
    true
}

/// The index range `[start, end)` of page `page` of a list of `total` items,
/// or `None` when that page is empty.
fn page_bounds(total: u32, page: u32, page_size: u32) -> (r: Option<(u32, u32)>)
    ensures
        match r {
            None => page_size == 0 || page * page_size >= total,
            Some((start, end)) => {
                &&& page_size != 0
                &&& start == page * page_size
                &&& start < total
                &&& end == if start + page_size < total {
                    start + page_size
                } else {
                    total as int
                }
            },
        },
{
    if page_size == 0 {
        return None;
    }
    proof {
        assert(page * page_size <= u32::MAX * u32::MAX) by (nonlinear_arith)
            requires
                page <= u32::MAX,
                page_size <= u32::MAX,
        ;
    }
    let start: u64 = page as u64 * page_size as u64;
    if start >= total as u64 {
        return None;
    }
    let next: u64 = start + page_size as u64;
    let end: u32 = if next < total as u64 {
        next as u32
    } else {
        total
    };
    Some((start as u32, end))
}

/// A supply chain provenance registry.
///
/// Participants are kept in registration order; products in registration
/// order, the product with id `n` at index `n - 1`; `events[n - 1]` is the
/// history of the product with id `n`.
pub struct Provenance {
    admin: Option<Address>,
    participants: Vec<Participant>,
    products: Vec<Product>,
    events: Vec<Vec<Event>>,
}

impl View for Provenance {
    type V = ProvenanceView;

    closed spec fn view(&self) -> ProvenanceView {
        parts_view(self.admin, self.participants@, self.products@, self.events@)
    }
}

impl Provenance {
    /// The registry's internal invariant.
    pub closed spec fn well_formed(&self) -> bool {
        &&& distinct_addresses(self.participants@)
        &&& self@.valid()
    }

    /// A well-formed registry is in a valid abstract state, so the laws over
    /// `ProvenanceView` apply to it.
    pub proof fn well_formed_is_valid(&self)
        requires
            self.well_formed(),
        ensures
            self@.valid(),
    {
    }

    /// An empty registry: no admin, no participants, no products.
    pub fn new() -> (r: Provenance)
        ensures
            r.well_formed(),
            r@ == ProvenanceView::empty(),
    {
        let r = Provenance {
            admin: None,
            participants: Vec::new(),
            products: Vec::new(),
            events: Vec::new(),
        };
        proof {
            assert(r@.participants =~= Map::empty());
            assert(r@.products =~= Seq::empty());
            assert(r@.events =~= Seq::empty());
        }
        r
    }

    // ---------- Initialization ----------

    /// Sets the admin. The registry is initialized once: the caller must not
    /// call this on a registry that has an admin.
    pub fn init(&mut self, admin: Address)
        requires
            old(self).well_formed(),
            old(self)@.admin is None,
        ensures
            final(self).well_formed(),
            final(self)@ == old(self)@.init(admin@),
            final(self)@.extends(old(self)@),
    {
        let ghost a = admin@;
        self.admin = Some(admin);
        proof {
            init_keeps_valid(old(self)@, a);
            assert(self@ == old(self)@.init(a));
        }
    }

    /// The admin, if the registry was initialized.
    pub fn admin(&self) -> (r: Option<Address>)
        ensures
            match r {
                Some(a) => self@.admin == Some(a@),
                None => self@.admin is None,
            },
    {
        match &self.admin {
            Some(a) => Some(a.clone()),
            None => None,
        }
    }

    // ---------- Participants ----------

    fn find_participant(&self, address: &Address) -> (r: Option<usize>)
        requires
            distinct_addresses(self.participants@),
        ensures
            match r {
                Some(i) => {
                    &&& i < self.participants@.len()
                    &&& self.participants@[i as int].address@ == address@
                    &&& self@.is_participant(address@)
                    &&& self@.participants[address@] == self.participants@[i as int]@
                },
                None => !self@.is_participant(address@),
            },
    {
        let mut i: usize = 0;
        while i < self.participants.len()
            invariant
                i <= self.participants@.len(),
                distinct_addresses(self.participants@),
                forall|j: int| 0 <= j < i ==> #[trigger] self.participants@[j].address@ != address@,
            decreases self.participants@.len() - i,
        {
            if self.participants[i].address.same_as(address) {
                proof {
                    lemma_map_lookup(self.participants@, i as int);
                }
                return Some(i);
            }
            i += 1;
        }
        proof {
            if self@.is_participant(address@) {
                let j = choose|j: int|
                    0 <= j < self.participants@.len() && #[trigger] self.participants@[j].address@
                        == address@;
                assert(self.participants@[j].address@ != address@);
            }
        }
        None
    }

    /// Registers `address` as a participant with the given role.
    pub fn register_participant(
        &mut self,
        address: Address,
        role: Role,
        name: String,
        metadata: String,
        now: u64,
    ) -> (r: Result<(), Error>)
        requires
            old(self).well_formed(),
        ensures
            final(self).well_formed(),
            final(self)@.extends(old(self)@),
            match old(self)@.register_participant(address@, role, name@, metadata@, now) {
                Ok(t) => r is Ok && final(self)@ == t,
                Err(e) => r == Err::<(), Error>(e) && final(self)@ == old(self)@,
            },
    {
        proof {
            register_participant_law(self@, address@, role, name@, metadata@, now);
            extends_reflexive(self@);
        }
        if self.find_participant(&address).is_some() {
            return Err(Error::AlreadyRegistered);
        }
        let participant = Participant { address, role, name, metadata, registered_at: now };
        proof {
            lemma_map_push(self.participants@, participant);
        }
        self.participants.push(participant);
        proof {
            assert(self@.participants == old(self)@.participants.insert(participant.address@, participant@));
            assert(self@ == old(self)@.register_participant(participant.address@, role, participant.name@, participant.metadata@, now)->Ok_0);
        }
        Ok(())
    }

    /// The participant registered under `address`, if any.
    pub fn get_participant(&self, address: &Address) -> (r: Option<Participant>)
        requires
            self.well_formed(),
        ensures
            match r {
                Some(p) => self@.participant(address@) == Some(p@),
                None => self@.participant(address@) is None,
            },
    {
        match self.find_participant(address) {
            Some(i) => Some(self.participants[i].clone()),
            None => None,
        }
    }

    // ---------- Products ----------

    fn product_index(&self, product_id: u64) -> (r: Option<usize>)
        ensures
            match r {
                Some(i) => self@.has_product(product_id) && i == product_id - 1,
                None => !self@.has_product(product_id),
            },
    {
        if 1 <= product_id && product_id <= self.products.len() as u64 {
            Some((product_id - 1) as usize)
        } else {
            None
        }
    }

    /// Registers a product owned by `caller`, which must be a participant in
    /// the role `Farmer` or `Other`; returns the product's id.
    pub fn register_product(
        &mut self,
        caller: Address,
        name: String,
        origin: String,
        metadata: String,
        now: u64,
    ) -> (r: Result<u64, Error>)
        requires
            old(self).well_formed(),
            old(self)@.register_product(caller@, name@, origin@, metadata@, now) is Ok
                ==> old(self)@.products.len() < u32::MAX,
        ensures
            final(self).well_formed(),
            final(self)@.extends(old(self)@),
            match old(self)@.register_product(caller@, name@, origin@, metadata@, now) {
                Ok(t) => r == Ok::<u64, Error>(old(self)@.next_product_id() as u64) && final(self)@ == t,
                Err(e) => r == Err::<u64, Error>(e) && final(self)@ == old(self)@,
            },
    {
        proof {
            extends_reflexive(self@);
        }
        let index = match self.find_participant(&caller) {
            Some(i) => i,
            None => return Err(Error::NotFound),
        };
        let role = self.participants[index].role;
        if role != Role::Farmer && role != Role::Other {
            return Err(Error::WrongRole);
        }
        proof {
            register_product_law(self@, caller@, name@, origin@, metadata@, now);
        }
        let count: u64 = self.products.len() as u64 + 1;
        let product = Product {
            id: count,
            name,
            origin,
            owner: caller,
            status: ProductStatus::Created,
            metadata,
            created_at: now,
            updated_at: now,
        };
        let ghost pv = product@;
        self.products.push(product);
        let history: Vec<Event> = Vec::new();
        proof {
            assert(history@.map_values(|e: Event| e@) =~= Seq::<EventView>::empty());
        }
        self.events.push(history);
        proof {
            let t = old(self)@.register_product(pv.owner, pv.name, pv.origin, pv.metadata, now)->Ok_0;
            assert(self@.products =~= t.products);
            assert(self@.events =~= t.events);
            assert(self@ == t);
        }
        Ok(count)
    }

    /// The product with id `product_id`, if any.
    pub fn get_product(&self, product_id: u64) -> (r: Option<Product>)
        ensures
            match r {
                Some(p) => self@.product(product_id) == Some(p@),
                None => self@.product(product_id) is None,
            },
    {
        match self.product_index(product_id) {
            Some(i) => Some(self.products[i].clone()),
            None => None,
        }
    }

    /// Hands the product over to `new_owner`, a registered participant. Only
    /// the current owner may do so, unless it is an inspector; the handover is recorded in the product's
    /// history as an "ownership_transfer" event whose actor is the caller.
    pub fn transfer_product(
        &mut self,
        caller: Address,
        product_id: u64,
        new_owner: Address,
        now: u64,
    ) -> (r: Result<(), Error>)
        requires
            old(self).well_formed(),
            old(self)@.transfer_product(caller@, product_id, new_owner@, now) is Ok
                ==> old(self)@.product_events(product_id).len() < u32::MAX,
        ensures
            final(self).well_formed(),
            final(self)@.extends(old(self)@),
            match old(self)@.transfer_product(caller@, product_id, new_owner@, now) {
                Ok(t) => r is Ok && final(self)@ == t,
                Err(e) => r == Err::<(), Error>(e) && final(self)@ == old(self)@,
            },
    {
        proof {
            extends_reflexive(self@);
        }
        let index = match self.product_index(product_id) {
            Some(i) => i,
            None => return Err(Error::NotFound),
        };
        if !self.products[index].owner.same_as(&caller) {
            return Err(Error::NotAuthorized);
        }
        if self.find_participant(&new_owner).is_none() {
            return Err(Error::NotFound);
        }
        if let Some(j) = self.find_participant(&caller) {
            if self.participants[j].role == Role::Inspector {
                return Err(Error::NotAuthorized);
            }
        }
        proof {
            transfer_product_law(self@, caller@, product_id, new_owner@, now);
        }
        let ghost new_owner_view = new_owner@;
        let mut product = self.products[index].clone();
        product.owner = new_owner;
        product.updated_at = now;
        self.products[index] = product;
        let ghost moved = self@;
        proof {
            let p = old(self)@.products[product_id - 1];
            assert(moved.products =~= old(self)@.products.update(
                product_id - 1,
                crate::types::ProductView { owner: new_owner_view, updated_at: now, ..p },
            ));
        }
        let ghost caller_view = caller@;
        let kind = "ownership_transfer".to_owned();
        let _ = self.record_event_internal(index, product_id, kind, String::new(), caller, String::new(), now);
        proof {
            assert(self@ == moved.append_event(product_id, "ownership_transfer"@, Seq::empty(), caller_view, Seq::empty(), now));
        }
        Ok(())
    }

    /// Sets the lifecycle status of a product; only its owner may do so.
    pub fn set_product_status(
        &mut self,
        caller: Address,
        product_id: u64,
        status: ProductStatus,
        now: u64,
    ) -> (r: Result<(), Error>)
        requires
            old(self).well_formed(),
        ensures
            final(self).well_formed(),
            final(self)@.extends(old(self)@),
            match old(self)@.set_product_status(caller@, product_id, status, now) {
                Ok(t) => r is Ok && final(self)@ == t,
                Err(e) => r == Err::<(), Error>(e) && final(self)@ == old(self)@,
            },
    {
        proof {
            extends_reflexive(self@);
            set_product_status_law(self@, caller@, product_id, status, now);
        }
        let index = match self.product_index(product_id) {
            Some(i) => i,
            None => return Err(Error::NotFound),
        };
        if !self.products[index].owner.same_as(&caller) {
            return Err(Error::NotAuthorized);
        }
        let mut product = self.products[index].clone();
        product.status = status;
        product.updated_at = now;
        self.products[index] = product;
        proof {
            let t = old(self)@.set_product_status(caller@, product_id, status, now)->Ok_0;
            assert(self@.products =~= t.products);
            assert(self@ == t);
        }
        Ok(())
    }

    // ---------- Events ----------

    /// Records an event on the product with id `product_id`. Its owner may
    /// always do so; any other caller must be a registered inspector. Returns
    /// the event's id within the product's history.
    pub fn record_event(
        &mut self,
        caller: Address,
        product_id: u64,
        event_type: String,
        location: String,
        metadata: String,
        now: u64,
    ) -> (r: Result<u64, Error>)
        requires
            old(self).well_formed(),
            old(self)@.record_event(caller@, product_id, event_type@, location@, metadata@, now) is Ok
                ==> old(self)@.product_events(product_id).len() < u32::MAX,
        ensures
            final(self).well_formed(),
            final(self)@.extends(old(self)@),
            match old(self)@.record_event(caller@, product_id, event_type@, location@, metadata@, now) {
                Ok(t) => r == Ok::<u64, Error>(old(self)@.next_event_id(product_id) as u64)
                    && final(self)@ == t,
                Err(e) => r == Err::<u64, Error>(e) && final(self)@ == old(self)@,
            },
    {
        proof {
            extends_reflexive(self@);
        }
        let index = match self.product_index(product_id) {
            Some(i) => i,
            None => return Err(Error::NotFound),
        };
        if !self.products[index].owner.same_as(&caller) {
            match self.find_participant(&caller) {
                None => return Err(Error::NotFound),
                Some(j) => {
                    if self.participants[j].role != Role::Inspector {
                        return Err(Error::NotAuthorized);
                    }
                },
            }
        }
        proof {
            record_event_law(self@, caller@, product_id, event_type@, location@, metadata@, now);
        }
        self.record_event_internal(index, product_id, event_type, location, caller, metadata, now)
    }

    fn record_event_internal(
        &mut self,
        index: usize,
        product_id: u64,
        event_type: String,
        location: String,
        actor: Address,
        metadata: String,
        now: u64,
    ) -> (r: Result<u64, Error>)
        requires
            old(self).events@.len() == old(self).products@.len(),
            index < old(self).events@.len(),
            product_id == index + 1,
            old(self).events@[index as int]@.len() < u32::MAX,
        ensures
            final(self).admin == old(self).admin,
            final(self).participants == old(self).participants,
            final(self).products == old(self).products,
            final(self)@ == old(self)@.append_event(
                product_id,
                event_type@,
                location@,
                actor@,
                metadata@,
                now,
            ),
            r == Ok::<u64, Error>(old(self)@.next_event_id(product_id) as u64),
    {
        let count: u64 = self.events[index].len() as u64 + 1;
        let event = Event {
            id: count,
            product_id,
            event_type,
            location,
            actor,
            metadata,
            timestamp: now,
        };
        let ghost ev = event@;
        self.events[index].push(event);
        proof {
            let t = old(self)@.append_event(product_id, ev.event_type, ev.location, ev.actor, ev.metadata, now);
            assert(self.events@[index as int]@.map_values(|e: Event| e@) =~= old(self)@.events[index as int].push(ev));
            assert(self@.events =~= t.events);
            assert(self@ == t);
        }
        Ok(count)
    }

    /// The event `event_id` of the product `product_id`, if any.
    pub fn get_event(&self, product_id: u64, event_id: u64) -> (r: Option<Event>)
        ensures
            match r {
                Some(e) => self@.event(product_id, event_id) == Some(e@),
                None => self@.event(product_id, event_id) is None,
            },
    {
        if 1 <= product_id && product_id <= self.events.len() as u64 {
            let history = &self.events[(product_id - 1) as usize];
            if 1 <= event_id && event_id <= history.len() as u64 {
                return Some(history[(event_id - 1) as usize].clone());
            }
        }
        None
    }

    // ---------- Queries ----------

    /// One page of the history of the product `product_id`, in recording
    /// order: pages are numbered from 0 and hold `page_size` events each.
    pub fn get_product_events(&self, product_id: u64, page: u32, page_size: u32) -> (r: Vec<Event>)
        requires
            self.well_formed(),
        ensures
            r@.map_values(|e: Event| e@) == page_of(
                self@.product_events(product_id),
                page as nat,
                page_size as nat,
            ),
    {
        let mut events: Vec<Event> = Vec::new();
        if product_id == 0 || product_id > self.events.len() as u64 {
            proof {
                assert(events@.map_values(|e: Event| e@) =~= Seq::<EventView>::empty());
            }
            return events;
        }
        let history = &self.events[(product_id - 1) as usize];
        let ghost h = self@.product_events(product_id);
        proof {
            assert(h == history@.map_values(|e: Event| e@));
            assert(self@.events[product_id - 1].len() <= u32::MAX);
        }
        let total: u32 = history.len() as u32;
        match page_bounds(total, page, page_size) {
            None => {
                proof {
                    assert(events@.map_values(|e: Event| e@) =~= Seq::<EventView>::empty());
                }
                events
            },
            Some((start, end)) => {
                let mut i: u32 = start;
                while i < end
                    invariant
                        start <= i <= end,
                        end <= history@.len(),
                        h == history@.map_values(|e: Event| e@),
                        events@.map_values(|e: Event| e@) =~= h.subrange(start as int, i as int),
                    decreases end - i,
                {
                    let ghost before = events@;
                    events.push(history[i as usize].clone());
                    proof {
                        assert(events@.map_values(|e: Event| e@) =~= before.map_values(|e: Event| e@).push(
                            h[i as int],
                        ));
                    }
                    i += 1;
                }
                events
            },
        }
    }

    /// The number of events recorded on the product `product_id`.
    pub fn get_product_events_count(&self, product_id: u64) -> (r: u32)
        requires
            self.well_formed(),
        ensures
            r == self@.product_events(product_id).len(),
    {
        if product_id == 0 || product_id > self.events.len() as u64 {
            return 0;
        }
        proof {
            assert(self@.events[product_id - 1].len() <= u32::MAX);
        }
        self.events[(product_id - 1) as usize].len() as u32
    }

    /// One page of all products, in registration order: pages are numbered
    /// from 0 and hold `page_size` products each.
    pub fn get_all_products(&self, page: u32, page_size: u32) -> (r: Vec<Product>)
        requires
            self.well_formed(),
        ensures
            r@.map_values(|p: Product| p@) == page_of(self@.products, page as nat, page_size as nat),
    {
        let mut products: Vec<Product> = Vec::new();
        let ghost all = self@.products;
        let total: u32 = self.products.len() as u32;
        match page_bounds(total, page, page_size) {
            None => {
                proof {
                    assert(products@.map_values(|p: Product| p@) =~= Seq::<ProductView>::empty());
                }
                products
            },
            Some((start, end)) => {
                let mut i: u32 = start;
                while i < end
                    invariant
                        start <= i <= end,
                        end <= self.products@.len(),
                        all == self.products@.map_values(|p: Product| p@),
                        products@.map_values(|p: Product| p@) =~= all.subrange(start as int, i as int),
                    decreases end - i,
                {
                    let ghost before = products@;
                    products.push(self.products[i as usize].clone());
                    proof {
                        assert(products@.map_values(|p: Product| p@) =~= before.map_values(|p: Product| p@).push(
                            all[i as int],
                        ));
                    }
                    i += 1;
                }
                products
            },
        }
    }

    /// The number of registered products.
    pub fn get_total_products(&self) -> (r: u32)
        requires
            self.well_formed(),
        ensures
            r == self@.products.len(),
    {
        self.products.len() as u32
    }

    /// The products that `owner` currently owns, in registration order.
    pub fn get_products_by_owner(&self, owner: &Address) -> (r: Vec<Product>)
        ensures
            r@.map_values(|p: Product| p@) == self@.products_of(owner@),
    {
        let mut products: Vec<Product> = Vec::new();
        let ghost all = self@.products;
        let ghost pred = |p: ProductView| p.owner == owner@;
        let mut i: usize = 0;
        while i < self.products.len()
            invariant
                i <= self.products@.len(),
                all == self.products@.map_values(|p: Product| p@),
                pred == (|p: ProductView| p.owner == owner@),
                products@.map_values(|p: Product| p@) =~= all.take(i as int).filter(pred),
            decreases self.products@.len() - i,
        {
            proof {
                reveal(Seq::filter);
                assert(all.take(i + 1).drop_last() =~= all.take(i as int));
            }
            if self.products[i].owner.same_as(owner) {
                products.push(self.products[i].clone());
            }
            i += 1;
        }
        proof {
            assert(all.take(i as int) =~= all);
        }
        products
    }

    // ---------- Stored form ----------

    /// The registry rebuilt from its stored parts, or `None` when the parts do
    /// not form a registry that the operations can reach.
    pub fn from_parts(
        admin: Option<Address>,
        participants: Vec<Participant>,
        products: Vec<Product>,
        events: Vec<Vec<Event>>,
    ) -> (r: Option<Provenance>)
        ensures
            r is Some <==> parts_valid(admin, participants@, products@, events@),
            r matches Some(p) ==> p.well_formed() && p@ == parts_view(
                admin,
                participants@,
                products@,
                events@,
            ),
    {
        let ghost v = parts_view(admin, participants@, products@, events@);
        proof {
            lemma_map_addresses(participants@);
        }
        if !addresses_distinct(&participants) {
            return None;
        }
        if products.len() > u32::MAX as usize || events.len() != products.len() {
            return None;
        }
        let mut i: usize = 0;
        while i < products.len()
            invariant
                i <= products@.len(),
                v == parts_view(admin, participants@, products@, events@),
                forall|k: int| 0 <= k < i ==> (#[trigger] products@[k]).id == k + 1,
                forall|k: int|
                    0 <= k < i ==> participant_map(participants@).contains_key(
                        (#[trigger] products@[k]).owner@,
                    ),
            decreases products@.len() - i,
        {
            let id_ok = products[i].id == i as u64 + 1;
            let owner_ok = holds_address(&participants, &products[i].owner);
            if !id_ok || !owner_ok {
                proof {
                    assert(v.products[i as int] == products@[i as int]@);
                    if v.valid() {
                        assert(v.products[i as int].id == i + 1);
                        assert(v.is_participant(v.products[i as int].owner));
                    }
                    assert(!parts_valid(admin, participants@, products@, events@));
                }
                return None;
            }
            i += 1;
        }
        proof {
            assert forall|k: int| 0 <= k < v.products.len() implies #[trigger] v.products[k].id == k + 1
                && v.is_participant(v.products[k].owner) by {
                assert(v.products[k] == products@[k]@);
                assert(products@[k].id == k + 1);
            }
        }
        let mut i: usize = 0;
        while i < events.len()
            invariant
                i <= events@.len(),
                events@.len() == products@.len(),
                products@.len() <= u32::MAX,
                v == parts_view(admin, participants@, products@, events@),
                forall|k: int| 0 <= k < i ==> (#[trigger] v.events[k]).len() <= u32::MAX,
                forall|k: int, j: int|
                    0 <= k < i && 0 <= j < v.events[k].len() ==> {
                        let e = #[trigger] v.events[k][j];
                        &&& e.id == j + 1
                        &&& e.product_id == k + 1
                        &&& v.is_participant(e.actor)
                    },
            decreases events@.len() - i,
        {
            let history = &events[i];
            let ghost hv = v.events[i as int];
            proof {
                assert(hv == history@.map_values(|e: Event| e@));
            }
            if history.len() > u32::MAX as usize {
                return None;
            }
            let mut j: usize = 0;
            while j < history.len()
                invariant
                    i < events@.len(),
                    events@.len() <= u32::MAX,
                    j <= history@.len(),
                    history == events@[i as int],
                    hv == history@.map_values(|e: Event| e@),
                    v.events.len() == events@.len(),
                    v.events[i as int] == hv,
                    v == parts_view(admin, participants@, products@, events@),
                    forall|m: int|
                        0 <= m < j ==> {
                            let e = #[trigger] hv[m];
                            &&& e.id == m + 1
                            &&& e.product_id == i + 1
                            &&& v.is_participant(e.actor)
                        },
                decreases history@.len() - j,
            {
                let e = &history[j];
                proof {
                    assert(hv[j as int] == e@);
                }
                let id_ok = e.id == j as u64 + 1 && e.product_id == i as u64 + 1;
                let actor_ok = holds_address(&participants, &e.actor);
                if !id_ok || !actor_ok {
                    proof {
                        let ev = v.events[i as int][j as int];
                        assert(!(ev.id == j + 1 && ev.product_id == i + 1 && v.is_participant(ev.actor)));
                    }
                    return None;
                }
                j += 1;
            }
            i += 1;
        }
        let r = Provenance { admin, participants, products, events };
        proof {
            assert(r@ == v);
        }
        Some(r)
    }

    /// The stored parts of the registry: admin, participants, products and
    /// histories, from which `from_parts` rebuilds it.
    pub fn into_parts(self) -> (r: (Option<Address>, Vec<Participant>, Vec<Product>, Vec<Vec<Event>>))
        requires
            self.well_formed(),
        ensures
            parts_valid(r.0, r.1@, r.2@, r.3@),
            parts_view(r.0, r.1@, r.2@, r.3@) == self@,
    {
        (self.admin, self.participants, self.products, self.events)
    }
}

} // verus!
