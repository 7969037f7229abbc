use provenance::contract::Provenance;
use provenance::types::{Address, Error, Event, Participant, Product, ProductStatus, Role};

fn addr(key: &str) -> Address {
    Address { key: key.to_string() }
}

fn s(text: &str) -> String {
    text.to_string()
}

/// A registry with a farmer, a processor, an inspector and one product of the
/// farmer (id 1) registered at time 100.
fn small_chain() -> Provenance {
    let mut r = Provenance::new();
    r.init(addr("GADMIN"));
    r.register_participant(addr("GFARM"), Role::Farmer, s("Farm"), s("{}"), 10).unwrap();
    r.register_participant(addr("GPROC"), Role::Processor, s("Mill"), s(""), 20).unwrap();
    r.register_participant(addr("GINSP"), Role::Inspector, s("Certifier"), s(""), 30).unwrap();
    assert_eq!(r.register_product(addr("GFARM"), s("Rice"), s("Thailand"), s("{}"), 100), Ok(1));
    r
}

#[test]
fn error_codes_match_the_documented_numbers() {
    assert_eq!(Error::AlreadyRegistered.code(), 1);
    assert_eq!(Error::NotAuthorized.code(), 2);
    assert_eq!(Error::NotFound.code(), 3);
    assert_eq!(Error::AlreadyExists.code(), 4);
    assert_eq!(Error::BadRequest.code(), 5);
    assert_eq!(Error::WrongRole.code(), 6);
}

#[test]
fn admin_is_absent_before_init() {
    let r = Provenance::new();
    assert_eq!(r.admin(), None);
    assert_eq!(r.get_total_products(), 0);
    assert!(r.get_product(1).is_none());
}

#[test]
fn registered_participant_reads_back_with_all_fields() {
    let r = small_chain();
    let p = r.get_participant(&addr("GPROC")).unwrap();
    assert_eq!(p.address, addr("GPROC"));
    assert_eq!(p.role, Role::Processor);
    assert_eq!(p.name, s("Mill"));
    assert_eq!(p.metadata, s(""));
    assert_eq!(p.registered_at, 20);
    assert!(r.get_participant(&addr("GNOBODY")).is_none());
}

#[test]
fn duplicate_registration_leaves_the_participant_unchanged() {
    let mut r = small_chain();
    let again = r.register_participant(addr("GFARM"), Role::Retailer, s("Other"), s("x"), 99);
    assert_eq!(again, Err(Error::AlreadyRegistered));
    let p = r.get_participant(&addr("GFARM")).unwrap();
    assert_eq!(p.role, Role::Farmer);
    assert_eq!(p.name, s("Farm"));
    assert_eq!(p.registered_at, 10);
}

#[test]
fn product_ids_count_up_from_one() {
    let mut r = small_chain();
    assert_eq!(r.register_product(addr("GFARM"), s("Tea"), s("India"), s(""), 200), Ok(2));
    r.register_participant(addr("GOTHER"), Role::Other, s("Coop"), s(""), 5).unwrap();
    assert_eq!(r.register_product(addr("GOTHER"), s("Salt"), s("Peru"), s(""), 300), Ok(3));
    assert_eq!(r.get_total_products(), 3);
    let p = r.get_product(3).unwrap();
    assert_eq!(p.id, 3);
    assert_eq!(p.origin, s("Peru"));
    assert_eq!(p.created_at, 300);
    assert_eq!(p.updated_at, 300);
    assert!(r.get_product(0).is_none());
    assert!(r.get_product(4).is_none());
}

#[test]
fn only_farmers_and_others_register_products() {
    let mut r = small_chain();
    assert_eq!(r.register_product(addr("GPROC"), s("X"), s(""), s(""), 1), Err(Error::WrongRole));
    assert_eq!(r.register_product(addr("GINSP"), s("X"), s(""), s(""), 1), Err(Error::WrongRole));
    assert_eq!(r.get_total_products(), 1);
}

#[test]
fn transfer_records_an_ownership_event_by_the_previous_owner() {
    let mut r = small_chain();
    r.record_event(addr("GFARM"), 1, s("harvest"), s("Field"), s(""), 110).unwrap();
    r.transfer_product(addr("GFARM"), 1, addr("GPROC"), 120).unwrap();
    assert_eq!(r.get_product_events_count(1), 2);
    let e = r.get_event(1, 2).unwrap();
    assert_eq!(e.id, 2);
    assert_eq!(e.product_id, 1);
    assert_eq!(e.event_type, s("ownership_transfer"));
    assert_eq!(e.location, s(""));
    assert_eq!(e.metadata, s(""));
    assert_eq!(e.actor, addr("GFARM"));
    assert_eq!(e.timestamp, 120);
    let p = r.get_product(1).unwrap();
    assert_eq!(p.owner, addr("GPROC"));
    assert_eq!(p.updated_at, 120);
    assert_eq!(p.created_at, 100);
    assert_eq!(p.status, ProductStatus::Created);
}

#[test]
fn refused_transfers_change_nothing() {
    let mut r = small_chain();
    assert_eq!(r.transfer_product(addr("GFARM"), 7, addr("GPROC"), 1), Err(Error::NotFound));
    assert_eq!(r.transfer_product(addr("GFARM"), 1, addr("GNOBODY"), 1), Err(Error::NotFound));
    assert_eq!(r.transfer_product(addr("GPROC"), 1, addr("GPROC"), 1), Err(Error::NotAuthorized));
    assert_eq!(r.get_product(1).unwrap().owner, addr("GFARM"));
    assert_eq!(r.get_product_events_count(1), 0);
}

#[test]
fn status_changes_belong_to_the_owner() {
    let mut r = small_chain();
    assert_eq!(
        r.set_product_status(addr("GPROC"), 1, ProductStatus::Recalled, 5),
        Err(Error::NotAuthorized)
    );
    assert_eq!(
        r.set_product_status(addr("GFARM"), 2, ProductStatus::Recalled, 5),
        Err(Error::NotFound)
    );
    r.set_product_status(addr("GFARM"), 1, ProductStatus::Recalled, 130).unwrap();
    let p = r.get_product(1).unwrap();
    assert_eq!(p.status, ProductStatus::Recalled);
    assert_eq!(p.updated_at, 130);
    assert_eq!(r.get_product_events_count(1), 0);
}

#[test]
fn inspectors_record_on_any_product_others_may_not() {
    let mut r = small_chain();
    assert_eq!(
        r.record_event(addr("GPROC"), 1, s("x"), s(""), s(""), 1),
        Err(Error::NotAuthorized)
    );
    assert_eq!(
        r.record_event(addr("GNOBODY"), 1, s("x"), s(""), s(""), 1),
        Err(Error::NotFound)
    );
    assert_eq!(r.record_event(addr("GFARM"), 9, s("x"), s(""), s(""), 1), Err(Error::NotFound));
    assert_eq!(
        r.record_event(addr("GINSP"), 1, s("inspection"), s("Lab"), s("{}"), 140),
        Ok(1)
    );
    let e = r.get_event(1, 1).unwrap();
    assert_eq!(e.actor, addr("GINSP"));
    assert_eq!(e.location, s("Lab"));
    assert_eq!(e.timestamp, 140);
}

#[test]
fn event_ids_are_numbered_per_product() {
    let mut r = small_chain();
    assert_eq!(r.register_product(addr("GFARM"), s("Tea"), s(""), s(""), 1), Ok(2));
    assert_eq!(r.record_event(addr("GFARM"), 1, s("a"), s(""), s(""), 1), Ok(1));
    assert_eq!(r.record_event(addr("GFARM"), 1, s("b"), s(""), s(""), 1), Ok(2));
    assert_eq!(r.record_event(addr("GFARM"), 2, s("c"), s(""), s(""), 1), Ok(1));
    assert_eq!(r.get_event(2, 1).unwrap().event_type, s("c"));
    assert_eq!(r.get_event(1, 2).unwrap().event_type, s("b"));
    assert!(r.get_event(1, 0).is_none());
    assert!(r.get_event(1, 3).is_none());
    assert!(r.get_event(3, 1).is_none());
    assert_eq!(r.get_product_events_count(3), 0);
}

#[test]
fn earlier_events_stay_as_recorded() {
    let mut r = small_chain();
    r.record_event(addr("GFARM"), 1, s("harvest"), s("Field"), s("m"), 110).unwrap();
    r.transfer_product(addr("GFARM"), 1, addr("GPROC"), 120).unwrap();
    r.set_product_status(addr("GPROC"), 1, ProductStatus::Processed, 130).unwrap();
    r.record_event(addr("GPROC"), 1, s("milling"), s("Mill"), s(""), 140).unwrap();
    let first = r.get_event(1, 1).unwrap();
    assert_eq!(first.event_type, s("harvest"));
    assert_eq!(first.location, s("Field"));
    assert_eq!(first.metadata, s("m"));
    assert_eq!(first.actor, addr("GFARM"));
    assert_eq!(first.timestamp, 110);
    let p = r.get_product(1).unwrap();
    assert_eq!(p.name, s("Rice"));
    assert_eq!(p.created_at, 100);
}

fn event_ids(events: &Vec<Event>) -> Vec<u64> {
    events.iter().map(|e| e.id).collect()
}

fn product_ids(products: &Vec<Product>) -> Vec<u64> {
    products.iter().map(|p| p.id).collect()
}

#[test]
fn pages_are_consecutive_slices() {
    let mut r = small_chain();
    for _ in 0..7 {
        r.record_event(addr("GFARM"), 1, s("tick"), s(""), s(""), 1).unwrap();
    }
    assert_eq!(event_ids(&r.get_product_events(1, 0, 3)), vec![1, 2, 3]);
    assert_eq!(event_ids(&r.get_product_events(1, 1, 3)), vec![4, 5, 6]);
    assert_eq!(event_ids(&r.get_product_events(1, 2, 3)), vec![7]);
    assert_eq!(event_ids(&r.get_product_events(1, 3, 3)), Vec::<u64>::new());
    assert_eq!(event_ids(&r.get_product_events(1, 0, 0)), Vec::<u64>::new());
    assert_eq!(event_ids(&r.get_product_events(1, 0, 100)), vec![1, 2, 3, 4, 5, 6, 7]);
    assert_eq!(event_ids(&r.get_product_events(2, 0, 3)), Vec::<u64>::new());
}

#[test]
fn product_pages_follow_registration_order() {
    let mut r = small_chain();
    for _ in 0..4 {
        r.register_product(addr("GFARM"), s("P"), s(""), s(""), 1).unwrap();
    }
    assert_eq!(product_ids(&r.get_all_products(0, 2)), vec![1, 2]);
    assert_eq!(product_ids(&r.get_all_products(1, 2)), vec![3, 4]);
    assert_eq!(product_ids(&r.get_all_products(2, 2)), vec![5]);
    assert_eq!(product_ids(&r.get_all_products(3, 2)), Vec::<u64>::new());
    assert_eq!(product_ids(&r.get_all_products(0, 0)), Vec::<u64>::new());
    assert_eq!(product_ids(&r.get_all_products(0, 5)), vec![1, 2, 3, 4, 5]);
}

#[test]
fn products_follow_their_owner() {
    let mut r = small_chain();
    r.register_product(addr("GFARM"), s("Tea"), s(""), s(""), 1).unwrap();
    r.transfer_product(addr("GFARM"), 1, addr("GPROC"), 2).unwrap();
    assert_eq!(product_ids(&r.get_products_by_owner(&addr("GFARM"))), vec![2]);
    assert_eq!(product_ids(&r.get_products_by_owner(&addr("GPROC"))), vec![1]);
    assert_eq!(product_ids(&r.get_products_by_owner(&addr("GINSP"))), Vec::<u64>::new());
}

#[test]
fn stored_parts_rebuild_the_same_registry() {
    let mut r = small_chain();
    r.record_event(addr("GINSP"), 1, s("inspection"), s("Lab"), s(""), 5).unwrap();
    let (admin, participants, products, events) = r.into_parts();
    assert_eq!(admin, Some(addr("GADMIN")));
    assert_eq!(participants.len(), 3);
    let rebuilt = Provenance::from_parts(admin, participants, products, events).unwrap();
    assert_eq!(rebuilt.get_total_products(), 1);
    assert_eq!(rebuilt.get_event(1, 1).unwrap().actor, addr("GINSP"));
    assert_eq!(rebuilt.get_participant(&addr("GPROC")).unwrap().name, s("Mill"));
}

fn participant(key: &str) -> Participant {
    Participant { address: addr(key), role: Role::Farmer, name: s(""), metadata: s(""), registered_at: 0 }
}

fn product(id: u64, owner: &str) -> Product {
    Product {
        id,
        name: s(""),
        origin: s(""),
        owner: addr(owner),
        status: ProductStatus::Created,
        metadata: s(""),
        created_at: 0,
        updated_at: 0,
    }
}

fn event(id: u64, product_id: u64, actor: &str) -> Event {
    Event {
        id,
        product_id,
        event_type: s(""),
        location: s(""),
        actor: addr(actor),
        metadata: s(""),
        timestamp: 0,
    }
}

#[test]
fn inconsistent_parts_are_refused() {
    let ok = Provenance::from_parts(
        None,
        vec![participant("GA")],
        vec![product(1, "GA")],
        vec![vec![event(1, 1, "GA")]],
    );
    assert!(ok.is_some());
    let duplicate = Provenance::from_parts(None, vec![participant("GA"), participant("GA")], vec![], vec![]);
    assert!(duplicate.is_none());
    let wrong_id = Provenance::from_parts(None, vec![participant("GA")], vec![product(2, "GA")], vec![vec![]]);
    assert!(wrong_id.is_none());
    let stranger = Provenance::from_parts(None, vec![participant("GA")], vec![product(1, "GB")], vec![vec![]]);
    assert!(stranger.is_none());
    let missing_history = Provenance::from_parts(None, vec![participant("GA")], vec![product(1, "GA")], vec![]);
    assert!(missing_history.is_none());
    let wrong_event = Provenance::from_parts(
        None,
        vec![participant("GA")],
        vec![product(1, "GA")],
        vec![vec![event(1, 2, "GA")]],
    );
    assert!(wrong_event.is_none());
    let unknown_actor = Provenance::from_parts(
        None,
        vec![participant("GA")],
        vec![product(1, "GA")],
        vec![vec![event(1, 1, "GZ")]],
    );
    assert!(unknown_actor.is_none());
}

#[test]
fn inspectors_hand_no_product_over() {
    let mut r = small_chain();
    r.transfer_product(addr("GFARM"), 1, addr("GINSP"), 5).unwrap();
    assert_eq!(r.get_product(1).unwrap().owner, addr("GINSP"));
    assert_eq!(r.transfer_product(addr("GINSP"), 1, addr("GPROC"), 6), Err(Error::NotAuthorized));
    assert_eq!(r.get_product(1).unwrap().owner, addr("GINSP"));
    assert_eq!(r.record_event(addr("GINSP"), 1, s("inspection"), s(""), s(""), 7), Ok(2));
}

#[test]
fn pages_far_past_the_end_are_empty() {
    let mut r = small_chain();
    for _ in 0..4 {
        r.register_product(addr("GFARM"), s("P"), s(""), s(""), 1).unwrap();
    }
    r.record_event(addr("GFARM"), 1, s("tick"), s(""), s(""), 1).unwrap();
    assert_eq!(r.get_all_products(2147483648, 2).len(), 0);
    assert_eq!(r.get_all_products(u32::MAX, u32::MAX).len(), 0);
    assert_eq!(r.get_product_events(1, 2147483648, 2).len(), 0);
    assert_eq!(r.get_product_events(1, u32::MAX, u32::MAX).len(), 0);
    assert_eq!(product_ids(&r.get_all_products(0, u32::MAX)), vec![1, 2, 3, 4, 5]);
    assert_eq!(event_ids(&r.get_product_events(1, 0, u32::MAX)), vec![1]);
    assert_eq!(r.get_total_products(), 5);
}

#[test]
fn all_pages_together_give_the_whole_history() {
    let mut r = small_chain();
    for _ in 0..10 {
        r.record_event(addr("GFARM"), 1, s("tick"), s(""), s(""), 1).unwrap();
    }
    let mut all: Vec<u64> = Vec::new();
    for page in 0..4 {
        let ids = event_ids(&r.get_product_events(1, page, 3));
        if page < 3 {
            assert_eq!(ids.len(), 3);
        }
        all.extend(ids);
    }
    assert_eq!(all, (1..=10).collect::<Vec<u64>>());
    assert_eq!(r.get_product_events(1, 4, 3).len(), 0);
}

#[test]
fn counts_follow_the_successful_calls() {
    let mut r = small_chain();
    // one product so far; a refused registration adds none
    assert!(r.register_product(addr("GPROC"), s("X"), s(""), s(""), 1).is_err());
    assert_eq!(r.get_total_products(), 1);
    assert_eq!(r.register_product(addr("GFARM"), s("Y"), s(""), s(""), 1), Ok(2));
    assert_eq!(r.get_total_products(), 2);
    // recorded events and transfers each add one entry; refused ones none
    r.record_event(addr("GFARM"), 1, s("a"), s(""), s(""), 1).unwrap();
    assert!(r.record_event(addr("GPROC"), 1, s("b"), s(""), s(""), 1).is_err());
    r.transfer_product(addr("GFARM"), 1, addr("GPROC"), 2).unwrap();
    assert!(r.transfer_product(addr("GFARM"), 1, addr("GPROC"), 3).is_err());
    r.set_product_status(addr("GPROC"), 1, ProductStatus::Processed, 4).unwrap();
    assert_eq!(r.get_product_events_count(1), 2);
    assert_eq!(r.get_product_events_count(2), 0);
    assert_eq!(r.get_product_events(1, 0, 2).len(), 2);
}

#[test]
fn transfer_moves_the_product_between_owner_lists() {
    let mut r = small_chain();
    r.register_product(addr("GFARM"), s("Tea"), s(""), s(""), 1).unwrap();
    assert_eq!(r.get_products_by_owner(&addr("GFARM")).len(), 2);
    assert_eq!(r.get_products_by_owner(&addr("GPROC")).len(), 0);
    r.transfer_product(addr("GFARM"), 2, addr("GPROC"), 2).unwrap();
    assert_eq!(product_ids(&r.get_products_by_owner(&addr("GFARM"))), vec![1]);
    assert_eq!(product_ids(&r.get_products_by_owner(&addr("GPROC"))), vec![2]);
    assert_eq!(r.get_total_products(), 2);
}

#[test]
fn an_unregistered_new_owner_is_reported_before_the_inspector_refusal() {
    let mut r = small_chain();
    r.transfer_product(addr("GFARM"), 1, addr("GINSP"), 5).unwrap();
    assert_eq!(r.transfer_product(addr("GINSP"), 1, addr("GNOBODY"), 6), Err(Error::NotFound));
    assert_eq!(r.transfer_product(addr("GINSP"), 1, addr("GFARM"), 6), Err(Error::NotAuthorized));
    assert_eq!(r.get_product(1).unwrap().owner, addr("GINSP"));
}
