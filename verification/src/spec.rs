//! The abstract registry: its state as mathematical values, and what each
//! operation does to it.
use vstd::prelude::*;

use crate::types::{may_register_products, Error, EventView, ParticipantView, ProductStatus, ProductView, Role};

verus! {

/// The registry's state. Products are numbered from 1 in registration order
/// (`products[i]` has id `i + 1`); `events[i]` is the history of the product
/// with id `i + 1`, its entries numbered from 1 in recording order.
pub struct ProvenanceView {
    pub admin: Option<Seq<char>>,
    pub participants: Map<Seq<char>, ParticipantView>,
    pub products: Seq<ProductView>,
    pub events: Seq<Seq<EventView>>,
}

/// The page `page` of `s` when it is cut into pages of `page_size` items:
/// empty when `page_size` is 0 or the page starts at or past the end.
pub open spec fn page_of<A>(s: Seq<A>, page: nat, page_size: nat) -> Seq<A> {
    let start = page * page_size;
    if page_size == 0 || start >= s.len() {
        Seq::empty()
    } else {
        let end = if start + page_size < s.len() {
            start + page_size
        } else {
            s.len()
        };
        s.subrange(start as int, end as int)
    }
}

impl ProvenanceView {
    /// The state of a registry that has never been written to.
    pub open spec fn empty() -> ProvenanceView {
        ProvenanceView {
            admin: None,
            participants: Map::empty(),
            products: Seq::empty(),
            events: Seq::empty(),
        }
    }

    pub open spec fn is_participant(self, address: Seq<char>) -> bool {
        self.participants.contains_key(address)
    }

    pub open spec fn participant(self, address: Seq<char>) -> Option<ParticipantView> {
        if self.is_participant(address) {
            Some(self.participants[address])
        } else {
            None
        }
    }

    pub open spec fn has_product(self, id: u64) -> bool {
        1 <= id <= self.products.len()
    }

    pub open spec fn product(self, id: u64) -> Option<ProductView> {
        if self.has_product(id) {
            Some(self.products[id - 1])
        } else {
            None
        }
    }

    /// The history of the product `id`; empty for an unknown product.
    pub open spec fn product_events(self, id: u64) -> Seq<EventView> {
        if 1 <= id <= self.events.len() {
            self.events[id - 1]
        } else {
            Seq::empty()
        }
    }

    pub open spec fn event(self, product_id: u64, event_id: u64) -> Option<EventView> {
        let history = self.product_events(product_id);
        if 1 <= event_id <= history.len() {
            Some(history[event_id - 1])
        } else {
            None
        }
    }

    /// The products owned by `owner`, in registration order.
    pub open spec fn products_of(self, owner: Seq<char>) -> Seq<ProductView> {
        self.products.filter(|p: ProductView| p.owner == owner)
    }

    /// What holds of every reachable state.
    pub open spec fn valid(self) -> bool {
        &&& self.products.len() <= u32::MAX
        &&& self.events.len() == self.products.len()
        &&& forall|a: Seq<char>| #[trigger]
            self.participants.contains_key(a) ==> self.participants[a].address == a
        &&& forall|i: int|
            0 <= i < self.products.len() ==> #[trigger] self.products[i].id == i + 1
                && self.is_participant(self.products[i].owner)
        &&& forall|i: int| 0 <= i < self.events.len() ==> (#[trigger] self.events[i]).len() <= u32::MAX
        &&& forall|i: int, j: int|
            0 <= i < self.events.len() && 0 <= j < self.events[i].len() ==> {
                let e = #[trigger] self.events[i][j];
                &&& e.id == j + 1
                &&& e.product_id == i + 1
                &&& self.is_participant(e.actor)
            }
    }

    /// `self` is a later state of `old`: the admin, once set, stays; no
    /// participant is removed or altered; no product disappears or changes its
    /// id, name, origin, metadata or creation time; every history only grows
    /// at its end.
    pub open spec fn extends(self, old: ProvenanceView) -> bool {
        &&& old.admin is Some ==> self.admin == old.admin
        &&& forall|a: Seq<char>| #[trigger]
            old.participants.contains_key(a) ==> self.participants.contains_key(a)
                && self.participants[a] == old.participants[a]
        &&& old.products.len() <= self.products.len()
        &&& forall|i: int|
            0 <= i < old.products.len() ==> {
                let (p, q) = (#[trigger] self.products[i], old.products[i]);
                &&& p.id == q.id
                &&& p.name == q.name
                &&& p.origin == q.origin
                &&& p.metadata == q.metadata
                &&& p.created_at == q.created_at
            }
        &&& old.events.len() <= self.events.len()
        &&& forall|i: int|
            0 <= i < old.events.len() ==> old.events[i].is_prefix_of(#[trigger] self.events[i])
    }

    // ---------- operations ----------

    pub open spec fn init(self, admin: Seq<char>) -> ProvenanceView {
        ProvenanceView { admin: Some(admin), ..self }
    }

    pub open spec fn register_participant(
        self,
        address: Seq<char>,
        role: Role,
        name: Seq<char>,
        metadata: Seq<char>,
        now: u64,
    ) -> Result<ProvenanceView, Error> {
        if self.is_participant(address) {
            Err(Error::AlreadyRegistered)
        } else {
            let p = ParticipantView { address, role, name, metadata, registered_at: now };
            Ok(ProvenanceView { participants: self.participants.insert(address, p), ..self })
        }
    }

    /// The id that the next registered product receives.
    pub open spec fn next_product_id(self) -> nat {
        self.products.len() + 1
    }

    pub open spec fn register_product(
        self,
        caller: Seq<char>,
        name: Seq<char>,
        origin: Seq<char>,
        metadata: Seq<char>,
        now: u64,
    ) -> Result<ProvenanceView, Error> {
        if !self.is_participant(caller) {
            Err(Error::NotFound)
        } else if !may_register_products(self.participants[caller].role) {
            Err(Error::WrongRole)
        } else {
            let p = ProductView {
                id: self.next_product_id() as u64,
                name,
                origin,
                owner: caller,
                status: ProductStatus::Created,
                metadata,
                created_at: now,
                updated_at: now,
            };
            Ok(
                ProvenanceView {
                    products: self.products.push(p),
                    events: self.events.push(Seq::empty()),
                    ..self
                },
            )
        }
    }

    /// The id that the next event recorded for product `product_id` receives.
    pub open spec fn next_event_id(self, product_id: u64) -> nat {
        self.product_events(product_id).len() + 1
    }

    /// Appends an event to the history of the product `product_id`.
    pub open spec fn append_event(
        self,
        product_id: u64,
        event_type: Seq<char>,
        location: Seq<char>,
        actor: Seq<char>,
        metadata: Seq<char>,
        now: u64,
    ) -> ProvenanceView {
        let e = EventView {
            id: self.next_event_id(product_id) as u64,
            product_id,
            event_type,
            location,
            actor,
            metadata,
            timestamp: now,
        };
        ProvenanceView {
            events: self.events.update(product_id - 1, self.product_events(product_id).push(e)),
            ..self
        }
    }

    /// Only the current owner may hand a product over, only to a registered
    /// participant, and an inspector never may. The checks come in that
    /// order: unknown product, caller not the owner, new owner not
    /// registered, caller an inspector.
    pub open spec fn transfer_product(
        self,
        caller: Seq<char>,
        product_id: u64,
        new_owner: Seq<char>,
        now: u64,
    ) -> Result<ProvenanceView, Error> {
        match self.product(product_id) {
            None => Err(Error::NotFound),
            Some(p) => if p.owner != caller {
                Err(Error::NotAuthorized)
            } else if !self.is_participant(new_owner) {
                Err(Error::NotFound)
            } else if self.is_participant(caller) && self.participants[caller].role == Role::Inspector {
                Err(Error::NotAuthorized)
            } else {
                let moved = ProvenanceView {
                    products: self.products.update(
                        product_id - 1,
                        ProductView { owner: new_owner, updated_at: now, ..p },
                    ),
                    ..self
                };
                Ok(
                    moved.append_event(
                        product_id,
                        "ownership_transfer"@,
                        Seq::empty(),
                        caller,
                        Seq::empty(),
                        now,
                    ),
                )
            },
        }
    }

    pub open spec fn set_product_status(
        self,
        caller: Seq<char>,
        product_id: u64,
        status: ProductStatus,
        now: u64,
    ) -> Result<ProvenanceView, Error> {
        match self.product(product_id) {
            None => Err(Error::NotFound),
            Some(p) => if p.owner != caller {
                Err(Error::NotAuthorized)
            } else {
                Ok(
                    ProvenanceView {
                        products: self.products.update(
                            product_id - 1,
                            ProductView { status, updated_at: now, ..p },
                        ),
                        ..self
                    },
                )
            },
        }
    }

    /// The owner of a product may record events on it; any other caller must
    /// be a registered inspector.
    pub open spec fn record_event(
        self,
        caller: Seq<char>,
        product_id: u64,
        event_type: Seq<char>,
        location: Seq<char>,
        metadata: Seq<char>,
        now: u64,
    ) -> Result<ProvenanceView, Error> {
        match self.product(product_id) {
            None => Err(Error::NotFound),
            Some(p) => if p.owner != caller && !self.is_participant(caller) {
                Err(Error::NotFound)
            } else if p.owner != caller && self.participants[caller].role != Role::Inspector {
                Err(Error::NotAuthorized)
            } else {
                Ok(self.append_event(product_id, event_type, location, caller, metadata, now))
            },
        }
    }
}

/// One call of an operation that may change the registry, with its arguments.
pub enum Operation {
    Init { admin: Seq<char> },
    RegisterParticipant {
        address: Seq<char>,
        role: Role,
        name: Seq<char>,
        metadata: Seq<char>,
        now: u64,
    },
    RegisterProduct {
        caller: Seq<char>,
        name: Seq<char>,
        origin: Seq<char>,
        metadata: Seq<char>,
        now: u64,
    },
    TransferProduct { caller: Seq<char>, product_id: u64, new_owner: Seq<char>, now: u64 },
    SetProductStatus { caller: Seq<char>, product_id: u64, status: ProductStatus, now: u64 },
    RecordEvent {
        caller: Seq<char>,
        product_id: u64,
        event_type: Seq<char>,
        location: Seq<char>,
        metadata: Seq<char>,
        now: u64,
    },
}

/// Whether the call `op`, when it succeeds, records an event on the product
/// `product_id`.
pub open spec fn records_on(op: Operation, product_id: u64) -> bool {
    match op {
        Operation::RecordEvent { product_id: id, .. } => id == product_id,
        Operation::TransferProduct { product_id: id, .. } => id == product_id,
        _ => false,
    }
}

impl ProvenanceView {
    /// The state after the call `op`, or `None` when the call is refused:
    /// when it returns an error, or when it panics (a second `init`, or a
    /// product list or history that is full). A refused call changes nothing.
    pub open spec fn apply(self, op: Operation) -> Option<ProvenanceView> {
        match op {
            Operation::Init { admin } => if self.admin is None {
                Some(self.init(admin))
            } else {
                None
            },
            Operation::RegisterParticipant { address, role, name, metadata, now } => match self.register_participant(
                address,
                role,
                name,
                metadata,
                now,
            ) {
                Ok(t) => Some(t),
                Err(_) => None,
            },
            Operation::RegisterProduct { caller, name, origin, metadata, now } => match self.register_product(
                caller,
                name,
                origin,
                metadata,
                now,
            ) {
                Ok(t) => if self.products.len() < u32::MAX {
                    Some(t)
                } else {
                    None
                },
                Err(_) => None,
            },
            Operation::TransferProduct { caller, product_id, new_owner, now } => match self.transfer_product(
                caller,
                product_id,
                new_owner,
                now,
            ) {
                Ok(t) => if self.product_events(product_id).len() < u32::MAX {
                    Some(t)
                } else {
                    None
                },
                Err(_) => None,
            },
            Operation::SetProductStatus { caller, product_id, status, now } => match self.set_product_status(
                caller,
                product_id,
                status,
                now,
            ) {
                Ok(t) => Some(t),
                Err(_) => None,
            },
            Operation::RecordEvent { caller, product_id, event_type, location, metadata, now } => match self.record_event(
                caller,
                product_id,
                event_type,
                location,
                metadata,
                now,
            ) {
                Ok(t) => if self.product_events(product_id).len() < u32::MAX {
                    Some(t)
                } else {
                    None
                },
                Err(_) => None,
            },
        }
    }

    /// The state after the call `op`, whether or not it succeeds.
    pub open spec fn after(self, op: Operation) -> ProvenanceView {
        match self.apply(op) {
            Some(t) => t,
            None => self,
        }
    }

    /// The state after the calls `ops`, in order.
    pub open spec fn run(self, ops: Seq<Operation>) -> ProvenanceView
        decreases ops.len(),
    {
        if ops.len() == 0 {
            self
        } else {
            self.run(ops.drop_last()).after(ops.last())
        }
    }

    /// The number of calls of `ops`, run from `self`, that registered a
    /// product.
    pub open spec fn registrations(self, ops: Seq<Operation>) -> nat
        decreases ops.len(),
    {
        if ops.len() == 0 {
            0
        } else {
            self.registrations(ops.drop_last()) + if ops.last() is RegisterProduct && self.run(
                ops.drop_last(),
            ).apply(ops.last()) is Some {
                1nat
            } else {
                0nat
            }
        }
    }

    /// The number of calls of `ops`, run from `self`, that recorded an event
    /// on the product `product_id`: successful `record_event` and
    /// `transfer_product` calls on it.
    pub open spec fn recordings(self, ops: Seq<Operation>, product_id: u64) -> nat
        decreases ops.len(),
    {
        if ops.len() == 0 {
            0
        } else {
            self.recordings(ops.drop_last(), product_id) + if records_on(ops.last(), product_id) && self.run(
                ops.drop_last(),
            ).apply(ops.last()) is Some {
                1nat
            } else {
                0nat
            }
        }
    }
}

} // verus!
