//! Laws of the registry, stated over the abstract state of `spec.rs`.
use vstd::prelude::*;

use crate::spec::{page_of, records_on, Operation, ProvenanceView};
use crate::types::{EventView, ParticipantView, ProductStatus, ProductView, Role};

verus! {

/// Every state is a later state of itself.
pub proof fn extends_reflexive(s: ProvenanceView)
    ensures
        s.extends(s),
{
    assert forall|i: int| 0 <= i < s.events.len() implies s.events[i].is_prefix_of(
        #[trigger] s.events[i],
    ) by {
        assert(s.events[i].subrange(0, s.events[i].len() as int) =~= s.events[i]);
    }
}

/// Being a later state is transitive: over any run of operations the admin
/// stays, participants and products stay as they were registered, and the
/// histories only grow.
pub proof fn extends_transitive(a: ProvenanceView, b: ProvenanceView, c: ProvenanceView)
    requires
        b.extends(a),
        c.extends(b),
    ensures
        c.extends(a),
{
    assert forall|i: int| 0 <= i < a.events.len() implies a.events[i].is_prefix_of(
        #[trigger] c.events[i],
    ) by {
        assert(a.events[i].is_prefix_of(b.events[i]));
        assert(b.events[i].is_prefix_of(c.events[i]));
        assert forall|j: int| 0 <= j < a.events[i].len() implies a.events[i][j] == c.events[i][j] by {
            assert(a.events[i][j] == b.events[i][j]);
        }
    }
}

/// The first and only admin assignment keeps the registry valid and changes
/// nothing else.
pub proof fn init_keeps_valid(s: ProvenanceView, admin: Seq<char>)
    requires
        s.valid(),
        s.admin is None,
    ensures
        s.init(admin).valid(),
        s.init(admin).extends(s),
        s.init(admin).admin == Some(admin),
{
    extends_reflexive(s);
}

/// Registering a participant keeps the registry valid, alters nothing that
/// was there, and a lookup of the address then gives the new participant.
/// Registering an address a second time is refused.
pub proof fn register_participant_law(
    s: ProvenanceView,
    address: Seq<char>,
    role: Role,
    name: Seq<char>,
    metadata: Seq<char>,
    now: u64,
)
    requires
        s.valid(),
    ensures
        match s.register_participant(address, role, name, metadata, now) {
            Ok(t) => {
                &&& !s.is_participant(address)
                &&& t.valid()
                &&& t.extends(s)
                &&& t.participant(address) == Some(
                    ParticipantView { address, role, name, metadata, registered_at: now },
                )
                &&& t.products == s.products
                &&& t.events == s.events
                &&& t.register_participant(address, role, name, metadata, now) == Err::<
                    ProvenanceView,
                    crate::types::Error,
                >(crate::types::Error::AlreadyRegistered)
            },
            Err(e) => e == crate::types::Error::AlreadyRegistered && s.is_participant(address),
        },
{
    if let Ok(t) = s.register_participant(address, role, name, metadata, now) {
        extends_reflexive(s);
        assert forall|i: int| 0 <= i < t.products.len() implies #[trigger] t.products[i].id == i + 1
            && t.is_participant(t.products[i].owner) by {
            assert(s.is_participant(s.products[i].owner));
        }
        assert forall|i: int, j: int|
            0 <= i < t.events.len() && 0 <= j < t.events[i].len() implies {
            let e = #[trigger] t.events[i][j];
            &&& e.id == j + 1
            &&& e.product_id == i + 1
            &&& t.is_participant(e.actor)
        } by {
            assert(s.is_participant(s.events[i][j].actor));
        }
    }
}

/// Registering a product keeps the registry valid, alters nothing that was
/// there, gives the product the next id (one more than the number of products
/// before), the caller as owner and the status `Created`, and starts an empty
/// history for it.
pub proof fn register_product_law(
    s: ProvenanceView,
    caller: Seq<char>,
    name: Seq<char>,
    origin: Seq<char>,
    metadata: Seq<char>,
    now: u64,
)
    requires
        s.valid(),
        s.products.len() < u32::MAX,
    ensures
        match s.register_product(caller, name, origin, metadata, now) {
            Ok(t) => {
                &&& t.valid()
                &&& t.extends(s)
                &&& t.products.len() == s.products.len() + 1
                &&& t.product(s.next_product_id() as u64) == Some(
                    ProductView {
                        id: s.next_product_id() as u64,
                        name,
                        origin,
                        owner: caller,
                        status: ProductStatus::Created,
                        metadata,
                        created_at: now,
                        updated_at: now,
                    },
                )
                &&& t.product_events(s.next_product_id() as u64).len() == 0
                &&& t.participants == s.participants
            },
            Err(_) => true,
        },
{
    if let Ok(t) = s.register_product(caller, name, origin, metadata, now) {
        extends_reflexive(s);
        assert(t.extends(s)) by {
            assert forall|i: int| 0 <= i < s.events.len() implies s.events[i].is_prefix_of(
                #[trigger] t.events[i],
            ) by {
                assert(t.events[i] == s.events[i]);
                assert(s.events[i].is_prefix_of(s.events[i]));
            }
        }
        assert forall|i: int| 0 <= i < t.products.len() implies #[trigger] t.products[i].id == i + 1
            && t.is_participant(t.products[i].owner) by {
            if i < s.products.len() {
                assert(t.products[i] == s.products[i]);
            }
        }
        assert forall|i: int| 0 <= i < t.events.len() implies (#[trigger] t.events[i]).len()
            <= u32::MAX by {
            if i < s.events.len() {
                assert(t.events[i] == s.events[i]);
            }
        }
        assert forall|i: int, j: int|
            0 <= i < t.events.len() && 0 <= j < t.events[i].len() implies {
            let e = #[trigger] t.events[i][j];
            &&& e.id == j + 1
            &&& e.product_id == i + 1
            &&& t.is_participant(e.actor)
        } by {
            assert(i < s.events.len());
            assert(t.events[i] == s.events[i]);
        }
    }
}

/// Appending an event keeps the registry valid when the actor is a
/// participant, and only extends the history of that one product.
pub proof fn append_event_keeps_valid(
    s: ProvenanceView,
    product_id: u64,
    event_type: Seq<char>,
    location: Seq<char>,
    actor: Seq<char>,
    metadata: Seq<char>,
    now: u64,
)
    requires
        s.valid(),
        s.has_product(product_id),
        s.product_events(product_id).len() < u32::MAX,
        s.is_participant(actor),
    ensures
        ({
            let t = s.append_event(product_id, event_type, location, actor, metadata, now);
            &&& t.valid()
            &&& t.extends(s)
            &&& t.product_events(product_id) == s.product_events(product_id).push(
                EventView {
                    id: s.next_event_id(product_id) as u64,
                    product_id,
                    event_type,
                    location,
                    actor,
                    metadata,
                    timestamp: now,
                },
            )
            &&& t.products == s.products
            &&& t.participants == s.participants
            &&& t.admin == s.admin
        }),
{
    let t = s.append_event(product_id, event_type, location, actor, metadata, now);
    let k = product_id - 1;
    assert forall|i: int| 0 <= i < s.events.len() implies s.events[i].is_prefix_of(
        #[trigger] t.events[i],
    ) by {
        if i != k {
            assert(t.events[i] == s.events[i]);
        }
        assert(s.events[i] =~= t.events[i].subrange(0, s.events[i].len() as int));
    }
    assert forall|i: int| 0 <= i < t.events.len() implies (#[trigger] t.events[i]).len()
        <= u32::MAX by {
        if i != k {
            assert(t.events[i] == s.events[i]);
        }
    }
    assert forall|i: int, j: int|
        0 <= i < t.events.len() && 0 <= j < t.events[i].len() implies {
        let e = #[trigger] t.events[i][j];
        &&& e.id == j + 1
        &&& e.product_id == i + 1
        &&& t.is_participant(e.actor)
    } by {
        if i != k {
            assert(t.events[i] == s.events[i]);
        } else if j < s.events[i].len() {
            assert(t.events[i][j] == s.events[i][j]);
        }
    }
    extends_reflexive(s);
}

/// Moving a product to a new owner keeps the registry valid: the new owner
/// owns it, and its history gains one "ownership_transfer" entry whose actor
/// is the previous owner.
pub proof fn transfer_product_law(s: ProvenanceView, caller: Seq<char>, product_id: u64, new_owner: Seq<char>, now: u64)
    requires
        s.valid(),
        s.product_events(product_id).len() < u32::MAX,
    ensures
        match s.transfer_product(caller, product_id, new_owner, now) {
            Ok(t) => {
                &&& t.valid()
                &&& t.extends(s)
                &&& t.product(product_id) matches Some(p) && p.owner == new_owner && p.updated_at == now
                    && p.status == s.products[product_id - 1].status
                &&& t.product_events(product_id).len() == s.product_events(product_id).len() + 1
                &&& t.event(product_id, s.next_event_id(product_id) as u64) == Some(
                    EventView {
                        id: s.next_event_id(product_id) as u64,
                        product_id,
                        event_type: "ownership_transfer"@,
                        location: Seq::empty(),
                        actor: caller,
                        metadata: Seq::empty(),
                        timestamp: now,
                    },
                )
            },
            Err(_) => true,
        },
{
    if let Ok(t) = s.transfer_product(caller, product_id, new_owner, now) {
        let p = s.products[product_id - 1];
        let moved = ProvenanceView {
            products: s.products.update(
                product_id - 1,
                ProductView { owner: new_owner, updated_at: now, ..p },
            ),
            ..s
        };
        assert(moved.valid()) by {
            assert forall|i: int| 0 <= i < moved.products.len() implies #[trigger] moved.products[i].id
                == i + 1 && moved.is_participant(moved.products[i].owner) by {
                if i != product_id - 1 {
                    assert(moved.products[i] == s.products[i]);
                }
            }
            assert forall|i: int, j: int|
                0 <= i < moved.events.len() && 0 <= j < moved.events[i].len() implies {
                let e = #[trigger] moved.events[i][j];
                &&& e.id == j + 1
                &&& e.product_id == i + 1
                &&& moved.is_participant(e.actor)
            } by {
                assert(moved.events[i][j] == s.events[i][j]);
            }
        }
        assert(s.is_participant(caller));
        append_event_keeps_valid(moved, product_id, "ownership_transfer"@, Seq::empty(), caller, Seq::empty(), now);
        assert(moved.extends(s)) by {
            extends_reflexive(s);
            assert forall|i: int| 0 <= i < s.products.len() implies {
                let (p, q) = (#[trigger] moved.products[i], s.products[i]);
                &&& p.id == q.id
                &&& p.name == q.name
                &&& p.origin == q.origin
                &&& p.metadata == q.metadata
                &&& p.created_at == q.created_at
            } by {
                if i != product_id - 1 {
                    assert(moved.products[i] == s.products[i]);
                }
            }
        }
        extends_transitive(s, moved, t);
    }
}

/// Changing a product's status keeps the registry valid, and the product then
/// has the new status.
pub proof fn set_product_status_law(s: ProvenanceView, caller: Seq<char>, product_id: u64, status: ProductStatus, now: u64)
    requires
        s.valid(),
    ensures
        match s.set_product_status(caller, product_id, status, now) {
            Ok(t) => {
                &&& t.valid()
                &&& t.extends(s)
                &&& t.product(product_id) matches Some(p) && p.status == status && p.owner == caller
                    && p.updated_at == now
                &&& t.events == s.events
                &&& t.participants == s.participants
            },
            Err(_) => true,
        },
{
    if let Ok(t) = s.set_product_status(caller, product_id, status, now) {
        extends_reflexive(s);
        assert forall|i: int| 0 <= i < t.products.len() implies #[trigger] t.products[i].id == i + 1
            && t.is_participant(t.products[i].owner) by {
            if i != product_id - 1 {
                assert(t.products[i] == s.products[i]);
            }
        }
        assert forall|i: int, j: int|
            0 <= i < t.events.len() && 0 <= j < t.events[i].len() implies {
            let e = #[trigger] t.events[i][j];
            &&& e.id == j + 1
            &&& e.product_id == i + 1
            &&& t.is_participant(e.actor)
        } by {
            assert(t.events[i][j] == s.events[i][j]);
        }
        assert forall|i: int| 0 <= i < s.products.len() implies {
            let (p, q) = (#[trigger] t.products[i], s.products[i]);
            &&& p.id == q.id
            &&& p.name == q.name
            &&& p.origin == q.origin
            &&& p.metadata == q.metadata
            &&& p.created_at == q.created_at
        } by {
            if i != product_id - 1 {
                assert(t.products[i] == s.products[i]);
            }
        }
    }
}

/// Recording an event keeps the registry valid; the new event has the next
/// id of that product's history (one more than its length before) and can be
/// read back under it.
pub proof fn record_event_law(
    s: ProvenanceView,
    caller: Seq<char>,
    product_id: u64,
    event_type: Seq<char>,
    location: Seq<char>,
    metadata: Seq<char>,
    now: u64,
)
    requires
        s.valid(),
        s.product_events(product_id).len() < u32::MAX,
    ensures
        match s.record_event(caller, product_id, event_type, location, metadata, now) {
            Ok(t) => {
                &&& t.valid()
                &&& t.extends(s)
                &&& t.products == s.products
                &&& t.product_events(product_id).len() == s.product_events(product_id).len() + 1
                &&& t.event(product_id, s.next_event_id(product_id) as u64) == Some(
                    EventView {
                        id: s.next_event_id(product_id) as u64,
                        product_id,
                        event_type,
                        location,
                        actor: caller,
                        metadata,
                        timestamp: now,
                    },
                )
            },
            Err(_) => true,
        },
{
    if let Ok(t) = s.record_event(caller, product_id, event_type, location, metadata, now) {
        let p = s.products[product_id - 1];
        if p.owner == caller {
            assert(s.products[product_id - 1].id == product_id);
        }
        append_event_keeps_valid(s, product_id, event_type, location, caller, metadata, now);
    }
}

/// An inspector may record an event on any existing product, whoever owns
/// it, but may hand no product over to a registered participant; a registered participant who neither
/// owns the product nor is an inspector may not record events on it.
pub proof fn inspector_access_law(
    s: ProvenanceView,
    caller: Seq<char>,
    product_id: u64,
    event_type: Seq<char>,
    location: Seq<char>,
    metadata: Seq<char>,
    new_owner: Seq<char>,
    now: u64,
)
    requires
        s.has_product(product_id),
        s.is_participant(caller),
    ensures
        s.participants[caller].role == Role::Inspector ==> s.record_event(
            caller,
            product_id,
            event_type,
            location,
            metadata,
            now,
        ) is Ok,
        s.participants[caller].role != Role::Inspector && s.products[product_id - 1].owner != caller
            ==> s.record_event(caller, product_id, event_type, location, metadata, now) == Err::<
            ProvenanceView,
            crate::types::Error,
        >(crate::types::Error::NotAuthorized),
        s.participants[caller].role == Role::Inspector && s.is_participant(new_owner)
            ==> s.transfer_product(
            caller,
            product_id,
            new_owner,
            now,
        ) == Err::<ProvenanceView, crate::types::Error>(crate::types::Error::NotAuthorized),
{
}

/// Pages `0` to `k - 1` of `s`, one after another.
pub open spec fn first_pages<A>(s: Seq<A>, page_size: nat, k: nat) -> Seq<A>
    decreases k,
{
    if k == 0 {
        Seq::empty()
    } else {
        first_pages(s, page_size, (k - 1) as nat) + page_of(s, (k - 1) as nat, page_size)
    }
}

/// The first `k` pages together are the first `k * page_size` items of the
/// list, or the whole list when it is shorter.
pub proof fn first_pages_are_a_prefix<A>(s: Seq<A>, page_size: nat, k: nat)
    requires
        0 < page_size,
    ensures
        first_pages(s, page_size, k) == s.subrange(
            0,
            if k * page_size < s.len() {
                (k * page_size) as int
            } else {
                s.len() as int
            },
        ),
    decreases k,
{
    if k == 0 {
        assert(first_pages(s, page_size, k) =~= s.subrange(0, 0));
    } else {
        let j = (k - 1) as nat;
        first_pages_are_a_prefix(s, page_size, j);
        assert(k * page_size == j * page_size + page_size) by (nonlinear_arith)
            requires
                j == k - 1,
        ;
        let start = j * page_size;
        assert(0 <= start) by (nonlinear_arith)
            requires
                start == j * page_size,
        ;
        assert(first_pages(s, page_size, k) =~= s.subrange(
            0,
            if k * page_size < s.len() {
                (k * page_size) as int
            } else {
                s.len() as int
            },
        ));
    }
}

/// Reading pages `0` to `k - 1` of a list, for any `k` pages that reach its
/// end, gives the whole list in order; every page that ends within the list
/// is full, and every page from `k` on is empty.
pub proof fn pages_tile_the_list<A>(s: Seq<A>, page_size: nat, k: nat)
    requires
        0 < page_size,
        s.len() <= k * page_size,
    ensures
        first_pages(s, page_size, k) == s,
        forall|j: nat| k <= j ==> (#[trigger] page_of(s, j, page_size)).len() == 0,
        forall|j: nat|
            (j + 1) * page_size <= s.len() ==> (#[trigger] page_of(s, j, page_size)).len()
                == page_size,
{
    first_pages_are_a_prefix(s, page_size, k);
    assert(s.subrange(0, s.len() as int) =~= s);
    assert forall|j: nat| k <= j implies (#[trigger] page_of(s, j, page_size)).len() == 0 by {
        assert(k * page_size <= j * page_size) by (nonlinear_arith)
            requires
                k <= j,
        ;
    }
    assert forall|j: nat| (j + 1) * page_size <= s.len() implies (#[trigger] page_of(
        s,
        j,
        page_size,
    )).len() == page_size by {
        assert((j + 1) * page_size == j * page_size + page_size) by (nonlinear_arith);
        assert(0 <= j * page_size) by (nonlinear_arith);
    }
}

/// The products of an owner are exactly the products that it owns.
pub proof fn products_of_owner(s: ProvenanceView, owner: Seq<char>, p: ProductView)
    ensures
        s.products_of(owner).contains(p) <==> s.products.contains(p) && p.owner == owner,
{
    let f = |q: ProductView| q.owner == owner;
    if s.products_of(owner).contains(p) {
        s.products.lemma_filter_contains_rev(f, p);
        let i = choose|i: int| 0 <= i < s.products.filter(f).len() && s.products.filter(f)[i] == p;
        s.products.lemma_filter_pred(f, i);
    }
    if s.products.contains(p) && p.owner == owner {
        let i = choose|i: int| 0 <= i < s.products.len() && s.products[i] == p;
        s.products.lemma_filter_contains(f, i);
    }
}

/// A call, successful or refused, keeps the registry valid, and the state
/// after it is a later state of the one before.
pub proof fn step_keeps_valid(s: ProvenanceView, op: Operation)
    requires
        s.valid(),
    ensures
        s.after(op).valid(),
        s.after(op).extends(s),
{
    extends_reflexive(s);
    match op {
        Operation::Init { admin } => {
            if s.admin is None {
                init_keeps_valid(s, admin);
            }
        },
        Operation::RegisterParticipant { address, role, name, metadata, now } => {
            register_participant_law(s, address, role, name, metadata, now);
        },
        Operation::RegisterProduct { caller, name, origin, metadata, now } => {
            if s.products.len() < u32::MAX {
                register_product_law(s, caller, name, origin, metadata, now);
            }
        },
        Operation::TransferProduct { caller, product_id, new_owner, now } => {
            if s.product_events(product_id).len() < u32::MAX {
                transfer_product_law(s, caller, product_id, new_owner, now);
            }
        },
        Operation::SetProductStatus { caller, product_id, status, now } => {
            set_product_status_law(s, caller, product_id, status, now);
        },
        Operation::RecordEvent { caller, product_id, event_type, location, metadata, now } => {
            if s.product_events(product_id).len() < u32::MAX {
                record_event_law(s, caller, product_id, event_type, location, metadata, now);
            }
        },
    }
}

/// Any run of calls keeps the registry valid, and ends in a later state of
/// the one it started from.
pub proof fn run_keeps_valid(s: ProvenanceView, ops: Seq<Operation>)
    requires
        s.valid(),
    ensures
        s.run(ops).valid(),
        s.run(ops).extends(s),
    decreases ops.len(),
{
    if ops.len() == 0 {
        extends_reflexive(s);
    } else {
        let d = ops.drop_last();
        run_keeps_valid(s, d);
        step_keeps_valid(s.run(d), ops.last());
        extends_transitive(s, s.run(d), s.run(ops));
    }
}

/// Every state that calls can reach from an empty registry is valid: every
/// product owner and event actor is a registered participant, products are
/// numbered 1 to n, and each history is numbered 1 to its length.
pub proof fn every_reachable_state_is_valid(ops: Seq<Operation>)
    ensures
        ProvenanceView::empty().run(ops).valid(),
{
    run_keeps_valid(ProvenanceView::empty(), ops);
}

/// Along a run, each state is a later state of every earlier one: no
/// recorded event is ever changed or removed, no participant or product is
/// altered or removed, and the number of products never decreases.
pub proof fn run_extends_its_prefixes(s: ProvenanceView, ops: Seq<Operation>, i: int)
    requires
        s.valid(),
        0 <= i <= ops.len(),
    ensures
        s.run(ops).extends(s.run(ops.take(i))),
        s.run(ops.take(i)).products.len() <= s.run(ops).products.len(),
    decreases ops.len(),
{
    if i == ops.len() {
        assert(ops.take(i) =~= ops);
        extends_reflexive(s.run(ops));
    } else {
        let d = ops.drop_last();
        assert(d.take(i) =~= ops.take(i));
        run_extends_its_prefixes(s, d, i);
        run_keeps_valid(s, d);
        step_keeps_valid(s.run(d), ops.last());
        extends_transitive(s.run(ops.take(i)), s.run(d), s.run(ops));
    }
}

/// The admin is set once: a later `init` is refused, and no run of calls
/// replaces the admin.
pub proof fn admin_is_set_once(s: ProvenanceView, ops: Seq<Operation>, admin: Seq<char>, other: Seq<char>)
    requires
        s.valid(),
        s.admin == Some(admin),
    ensures
        s.apply(Operation::Init { admin: other }) is None,
        s.run(ops).admin == Some(admin),
{
    run_keeps_valid(s, ops);
}

/// A call adds one product when it is a successful registration, and none
/// otherwise.
pub proof fn step_product_count(s: ProvenanceView, op: Operation)
    ensures
        s.after(op).products.len() == s.products.len() + if op is RegisterProduct && s.apply(
            op,
        ) is Some {
            1nat
        } else {
            0nat
        },
{
}

/// After a run of calls the number of products is the number before plus the
/// number of successful product registrations; from an empty registry, it is
/// the number of successful registrations, and the last product's id.
pub proof fn product_count_law(s: ProvenanceView, ops: Seq<Operation>)
    ensures
        s.run(ops).products.len() == s.products.len() + s.registrations(ops),
        s == ProvenanceView::empty() && s.run(ops).products.len() > 0 ==> s.run(ops).products.last().id
            == s.registrations(ops),
    decreases ops.len(),
{
    if ops.len() > 0 {
        let d = ops.drop_last();
        product_count_law(s, d);
        step_product_count(s.run(d), ops.last());
    }
    if s == ProvenanceView::empty() {
        every_reachable_state_is_valid(ops);
        let t = s.run(ops);
        if t.products.len() > 0 {
            assert(t.products[t.products.len() - 1].id == t.products.len());
        }
    }
}

/// A call appends one event to the history of `product_id` when it is a
/// successful `record_event` or `transfer_product` on that product, and
/// leaves that history as long as it was otherwise.
pub proof fn step_event_count(s: ProvenanceView, op: Operation, product_id: u64)
    requires
        s.events.len() == s.products.len(),
    ensures
        s.after(op).events.len() == s.after(op).products.len(),
        s.after(op).product_events(product_id).len() == s.product_events(product_id).len() + if records_on(
            op,
            product_id,
        ) && s.apply(op) is Some {
            1nat
        } else {
            0nat
        },
{
    match op {
        Operation::RegisterProduct { caller, name, origin, metadata, now } => {
            if let Some(t) = s.apply(op) {
                if 1 <= product_id <= s.events.len() {
                    assert(t.events[product_id - 1] == s.events[product_id - 1]);
                }
            }
        },
        Operation::TransferProduct { caller, product_id: q, new_owner, now } => {
            if let Some(t) = s.apply(op) {
                if product_id != q && 1 <= product_id <= s.events.len() {
                    assert(t.events[product_id - 1] == s.events[product_id - 1]);
                }
            }
        },
        Operation::RecordEvent { caller, product_id: q, event_type, location, metadata, now } => {
            if let Some(t) = s.apply(op) {
                if product_id != q && 1 <= product_id <= s.events.len() {
                    assert(t.events[product_id - 1] == s.events[product_id - 1]);
                }
            }
        },
        _ => {},
    }
}

/// After a run of calls, the history of a product is longer than before by
/// exactly the number of successful `record_event` and `transfer_product`
/// calls on it; from an empty registry, its length is that number.
pub proof fn event_count_law(s: ProvenanceView, ops: Seq<Operation>, product_id: u64)
    requires
        s.events.len() == s.products.len(),
    ensures
        s.run(ops).events.len() == s.run(ops).products.len(),
        s.run(ops).product_events(product_id).len() == s.product_events(product_id).len()
            + s.recordings(ops, product_id),
    decreases ops.len(),
{
    if ops.len() > 0 {
        let d = ops.drop_last();
        event_count_law(s, d, product_id);
        step_event_count(s.run(d), ops.last(), product_id);
    }
}

/// Replacing one item of a list changes the length of its filter by what the
/// old and the new item count.
proof fn lemma_filter_update_len<A>(s: Seq<A>, i: int, x: A, f: spec_fn(A) -> bool)
    requires
        0 <= i < s.len(),
    ensures
        s.update(i, x).filter(f).len() + (if f(s[i]) {
            1int
        } else {
            0int
        }) == s.filter(f).len() + (if f(x) {
            1int
        } else {
            0int
        }),
    decreases s.len(),
{
    reveal(Seq::filter);
    let u = s.update(i, x);
    if i == s.len() - 1 {
        assert(u.drop_last() =~= s.drop_last());
    } else {
        assert(u.drop_last() =~= s.drop_last().update(i, x));
        lemma_filter_update_len(s.drop_last(), i, x, f);
    }
}

/// A successful transfer from `caller` to another participant moves the
/// product from the caller's list to the new owner's: the new owner's list
/// gains one product, which has the product's id, the caller's list loses
/// one and no longer holds that id, and the number of products is unchanged.
pub proof fn transfer_moves_between_owner_lists(
    s: ProvenanceView,
    caller: Seq<char>,
    product_id: u64,
    new_owner: Seq<char>,
    now: u64,
)
    requires
        s.valid(),
        caller != new_owner,
        s.transfer_product(caller, product_id, new_owner, now) is Ok,
    ensures
        ({
            let t = s.transfer_product(caller, product_id, new_owner, now)->Ok_0;
            &&& t.products.len() == s.products.len()
            &&& t.products_of(new_owner).len() == s.products_of(new_owner).len() + 1
            &&& t.products_of(caller).len() + 1 == s.products_of(caller).len()
            &&& exists|p: ProductView| #[trigger] t.products_of(new_owner).contains(p) && p.id == product_id
            &&& forall|p: ProductView| #[trigger] t.products_of(caller).contains(p) ==> p.id != product_id
        }),
{
    let t = s.transfer_product(caller, product_id, new_owner, now)->Ok_0;
    let k = product_id - 1;
    let old_p = s.products[k];
    let new_p = t.products[k];
    assert(t.products == s.products.update(k, new_p));
    assert(old_p.owner == caller);
    assert(new_p.owner == new_owner && new_p.id == product_id);
    let fb = |q: ProductView| q.owner == new_owner;
    let fa = |q: ProductView| q.owner == caller;
    lemma_filter_update_len(s.products, k, new_p, fb);
    lemma_filter_update_len(s.products, k, new_p, fa);
    t.products.lemma_filter_contains(fb, k);
    assert(t.products_of(new_owner).contains(new_p));
    assert forall|p: ProductView| #[trigger] t.products_of(caller).contains(p) implies p.id != product_id by {
        t.products.lemma_filter_contains_rev(fa, p);
        let j = choose|j: int| 0 <= j < t.products_of(caller).len() && t.products_of(caller)[j] == p;
        t.products.lemma_filter_pred(fa, j);
        let m = choose|m: int| 0 <= m < t.products.len() && t.products[m] == p;
        if m != k {
            assert(t.products[m] == s.products[m]);
            assert(s.products[m].id == m + 1);
        }
    }
}

/// The owner of a product may always record an event on it, whatever its
/// role: the call succeeds, appends exactly one event to that product's
/// history (numbered one past its end, with the given type, location,
/// metadata and time, and the owner as actor) and changes nothing else.
pub proof fn owner_records_on_own_product(
    s: ProvenanceView,
    caller: Seq<char>,
    product_id: u64,
    event_type: Seq<char>,
    location: Seq<char>,
    metadata: Seq<char>,
    now: u64,
)
    requires
        s.valid(),
        1 <= product_id <= s.products.len(),
        s.products[product_id - 1].owner == caller,
    ensures
        s.record_event(caller, product_id, event_type, location, metadata, now) matches Ok(t) && {
            &&& t.product_events(product_id) == s.product_events(product_id).push(
                EventView {
                    id: (s.product_events(product_id).len() + 1) as u64,
                    product_id,
                    event_type,
                    location,
                    actor: caller,
                    metadata,
                    timestamp: now,
                },
            )
            &&& forall|q: u64| q != product_id ==> #[trigger] t.product_events(q) == s.product_events(q)
            &&& t.products == s.products
            &&& t.participants == s.participants
            &&& t.admin == s.admin
        },
{
    let t = s.record_event(caller, product_id, event_type, location, metadata, now)->Ok_0;
    assert forall|q: u64| q != product_id implies #[trigger] t.product_events(q) == s.product_events(q) by {
        if 1 <= q <= s.events.len() {
            assert(t.events[q - 1] == s.events[q - 1]);
        }
    }
}

/// The owner of a product, unless it is an inspector, may hand it to any
/// registered participant, whatever either role: the call succeeds, the
/// product then has the new owner and the given update time and is otherwise
/// as it was, and its history gains one "ownership_transfer" event, numbered
/// one past its end, with the previous owner as actor, empty location and
/// metadata, and the given time.
pub proof fn owner_transfers_own_product(
    s: ProvenanceView,
    caller: Seq<char>,
    product_id: u64,
    new_owner: Seq<char>,
    now: u64,
)
    requires
        s.valid(),
        1 <= product_id <= s.products.len(),
        s.products[product_id - 1].owner == caller,
        s.is_participant(new_owner),
        s.participants[caller].role != Role::Inspector,
    ensures
        s.transfer_product(caller, product_id, new_owner, now) matches Ok(t) && {
            let p = s.products[product_id - 1];
            &&& t.products == s.products.update(
                product_id - 1,
                ProductView {
                    id: p.id,
                    name: p.name,
                    origin: p.origin,
                    owner: new_owner,
                    status: p.status,
                    metadata: p.metadata,
                    created_at: p.created_at,
                    updated_at: now,
                },
            )
            &&& t.product_events(product_id) == s.product_events(product_id).push(
                EventView {
                    id: (s.product_events(product_id).len() + 1) as u64,
                    product_id,
                    event_type: "ownership_transfer"@,
                    location: Seq::empty(),
                    actor: caller,
                    metadata: Seq::empty(),
                    timestamp: now,
                },
            )
            &&& t.participants == s.participants
            &&& t.admin == s.admin
        },
{
}

/// The owner of a product may set any status on it: the call succeeds, and
/// the product then has that status and the given update time and is
/// otherwise as it was; nothing else changes.
pub proof fn owner_sets_any_status(
    s: ProvenanceView,
    caller: Seq<char>,
    product_id: u64,
    status: ProductStatus,
    now: u64,
)
    requires
        1 <= product_id <= s.products.len(),
        s.products[product_id - 1].owner == caller,
    ensures
        s.set_product_status(caller, product_id, status, now) matches Ok(t) && {
            let p = s.products[product_id - 1];
            &&& t.products == s.products.update(
                product_id - 1,
                ProductView {
                    id: p.id,
                    name: p.name,
                    origin: p.origin,
                    owner: p.owner,
                    status,
                    metadata: p.metadata,
                    created_at: p.created_at,
                    updated_at: now,
                },
            )
            &&& t.events == s.events
            &&& t.participants == s.participants
            &&& t.admin == s.admin
        },
{
}

/// Exactly farmers and participants in the role `Other` may register
/// products: a registered caller in either role succeeds and gets a new
/// product numbered one past the last, owned by it, with status `Created`;
/// a registered caller in any other role gets `WrongRole`, and an
/// unregistered caller gets `NotFound`.
pub proof fn product_registration_by_role(
    s: ProvenanceView,
    caller: Seq<char>,
    name: Seq<char>,
    origin: Seq<char>,
    metadata: Seq<char>,
    now: u64,
)
    ensures
        !s.participants.contains_key(caller) ==> s.register_product(caller, name, origin, metadata, now)
            == Err::<ProvenanceView, crate::types::Error>(crate::types::Error::NotFound),
        s.participants.contains_key(caller) && s.participants[caller].role != Role::Farmer
            && s.participants[caller].role != Role::Other ==> s.register_product(
            caller,
            name,
            origin,
            metadata,
            now,
        ) == Err::<ProvenanceView, crate::types::Error>(crate::types::Error::WrongRole),
        s.participants.contains_key(caller) && (s.participants[caller].role == Role::Farmer
            || s.participants[caller].role == Role::Other) ==> (s.register_product(
            caller,
            name,
            origin,
            metadata,
            now,
        ) matches Ok(t) && t.products == s.products.push(
            ProductView {
                id: (s.products.len() + 1) as u64,
                name,
                origin,
                owner: caller,
                status: ProductStatus::Created,
                metadata,
                created_at: now,
                updated_at: now,
            },
        ) && t.events == s.events.push(Seq::empty()) && t.participants == s.participants),
{
}

/// Reading an event back by its id gives the event recorded under that id:
/// for every id from 1 to the length of a product's history, the event read
/// is the one at that position of the history, and in a valid registry it
/// carries that id and the product's id; ids outside that range give
/// nothing.
pub proof fn events_read_back_by_id(s: ProvenanceView, product_id: u64, event_id: u64)
    ensures
        1 <= event_id <= s.product_events(product_id).len() ==> s.event(product_id, event_id)
            == Some(s.product_events(product_id)[event_id - 1]),
        1 <= event_id <= s.product_events(product_id).len() && s.valid() ==> (s.event(
            product_id,
            event_id,
        ) matches Some(e) && e.id == event_id && e.product_id == product_id),
        !(1 <= event_id <= s.product_events(product_id).len()) ==> s.event(product_id, event_id) is None,
{
    if 1 <= event_id <= s.product_events(product_id).len() && s.valid() {
        let e = s.events[product_id - 1][event_id - 1];
        assert(e.id == event_id && e.product_id == product_id);
    }
}

/// Reading a product back by its id gives the product registered under that
/// id: for every id from 1 to the number of products, the product read is the
/// one at that position, and in a valid registry it carries that id; other
/// ids give nothing.
pub proof fn products_read_back_by_id(s: ProvenanceView, product_id: u64)
    ensures
        1 <= product_id <= s.products.len() ==> s.product(product_id) == Some(
            s.products[product_id - 1],
        ),
        1 <= product_id <= s.products.len() && s.valid() ==> (s.product(product_id) matches Some(p)
            && p.id == product_id),
        !(1 <= product_id <= s.products.len()) ==> s.product(product_id) is None,
{
    if 1 <= product_id <= s.products.len() && s.valid() {
        assert(s.products[product_id - 1].id == product_id);
    }
}

/// Filtering a list whose ids increase keeps the ids increasing.
proof fn lemma_filter_keeps_order(s: Seq<ProductView>, f: spec_fn(ProductView) -> bool)
    requires
        forall|i: int, j: int| 0 <= i < j < s.len() ==> #[trigger] s[i].id < #[trigger] s[j].id,
    ensures
        forall|i: int, j: int|
            0 <= i < j < s.filter(f).len() ==> #[trigger] s.filter(f)[i].id < #[trigger] s.filter(
                f,
            )[j].id,
    decreases s.len(),
{
    reveal(Seq::filter);
    if s.len() > 0 {
        let d = s.drop_last();
        lemma_filter_keeps_order(d, f);
        let fd = d.filter(f);
        if f(s.last()) {
            assert forall|k: int| 0 <= k < fd.len() implies #[trigger] fd[k].id < s.last().id by {
                assert(fd.contains(fd[k]));
                d.lemma_filter_contains_rev(f, fd[k]);
                let m = choose|m: int| 0 <= m < d.len() && d[m] == fd[k];
                assert(s[m] == d[m]);
                assert(s[m].id < s[s.len() - 1].id);
            }
            let r = fd.push(s.last());
            assert forall|i: int, j: int| 0 <= i < j < r.len() implies #[trigger] r[i].id
                < #[trigger] r[j].id by {
                if j == r.len() - 1 {
                    assert(r[i] == fd[i]);
                } else {
                    assert(r[i] == fd[i] && r[j] == fd[j]);
                }
            }
        }
    }
}

/// The products listed for an owner are exactly its products, in
/// registration order: their ids strictly increase.
pub proof fn owner_list_in_registration_order(s: ProvenanceView, owner: Seq<char>)
    requires
        s.valid(),
    ensures
        forall|p: ProductView| #[trigger]
            s.products_of(owner).contains(p) <==> s.products.contains(p) && p.owner == owner,
        forall|i: int, j: int|
            0 <= i < j < s.products_of(owner).len() ==> #[trigger] s.products_of(owner)[i].id
                < #[trigger] s.products_of(owner)[j].id,
{
    assert forall|p: ProductView| #[trigger]
        s.products_of(owner).contains(p) <==> s.products.contains(p) && p.owner == owner by {
        products_of_owner(s, owner, p);
    }
    assert forall|i: int, j: int| 0 <= i < j < s.products.len() implies #[trigger] s.products[i].id
        < #[trigger] s.products[j].id by {
        assert(s.products[i].id == i + 1);
        assert(s.products[j].id == j + 1);
    }
    lemma_filter_keeps_order(s.products, |p: ProductView| p.owner == owner);
}

/// When the product, the caller or the new owner is not as an operation
/// needs, the operation is refused with the documented error: an unknown
/// product gives `NotFound`; a caller that does not own the product gives
/// `NotAuthorized` for a transfer or a status change, and for recording an
/// event `NotFound` when it is not registered and `NotAuthorized` when it is
/// registered but no inspector; a transfer to an unregistered participant
/// gives `NotFound`.
pub proof fn refusals(
    s: ProvenanceView,
    caller: Seq<char>,
    product_id: u64,
    new_owner: Seq<char>,
    status: ProductStatus,
    event_type: Seq<char>,
    location: Seq<char>,
    metadata: Seq<char>,
    now: u64,
)
    ensures
        !(1 <= product_id <= s.products.len()) ==> {
            &&& s.transfer_product(caller, product_id, new_owner, now) == Err::<
                ProvenanceView,
                crate::types::Error,
            >(crate::types::Error::NotFound)
            &&& s.set_product_status(caller, product_id, status, now) == Err::<
                ProvenanceView,
                crate::types::Error,
            >(crate::types::Error::NotFound)
            &&& s.record_event(caller, product_id, event_type, location, metadata, now) == Err::<
                ProvenanceView,
                crate::types::Error,
            >(crate::types::Error::NotFound)
        },
        1 <= product_id <= s.products.len() && s.products[product_id - 1].owner != caller ==> {
            &&& s.transfer_product(caller, product_id, new_owner, now) == Err::<
                ProvenanceView,
                crate::types::Error,
            >(crate::types::Error::NotAuthorized)
            &&& s.set_product_status(caller, product_id, status, now) == Err::<
                ProvenanceView,
                crate::types::Error,
            >(crate::types::Error::NotAuthorized)
            &&& !s.participants.contains_key(caller) ==> s.record_event(
                caller,
                product_id,
                event_type,
                location,
                metadata,
                now,
            ) == Err::<ProvenanceView, crate::types::Error>(crate::types::Error::NotFound)
            &&& s.participants.contains_key(caller) && s.participants[caller].role != Role::Inspector
                ==> s.record_event(caller, product_id, event_type, location, metadata, now) == Err::<
                ProvenanceView,
                crate::types::Error,
            >(crate::types::Error::NotAuthorized)
        },
        1 <= product_id <= s.products.len() && s.products[product_id - 1].owner == caller
            && !s.participants.contains_key(new_owner) ==> s.transfer_product(
            caller,
            product_id,
            new_owner,
            now,
        ) == Err::<ProvenanceView, crate::types::Error>(crate::types::Error::NotFound),
{
}

} // verus!
