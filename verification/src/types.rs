//! The records kept by the provenance registry, with their mathematical views.
use vstd::prelude::*;

verus! {

/// Failure reasons of the registry operations.
#[derive(Clone, Copy, Debug, PartialEq, Eq, Structural)]
pub enum Error {
    AlreadyRegistered,
    NotAuthorized,
    NotFound,
    AlreadyExists,
    BadRequest,
    WrongRole,
}

impl Error {
    /// The numeric code under which the ledger reports this error.
    pub fn code(&self) -> (c: u32)
        ensures
            c == match *self {
                Error::AlreadyRegistered => 1u32,
                Error::NotAuthorized => 2u32,
                Error::NotFound => 3u32,
                Error::AlreadyExists => 4u32,
                Error::BadRequest => 5u32,
                Error::WrongRole => 6u32,
            },
    {
        match self {
            Error::AlreadyRegistered => 1,
            Error::NotAuthorized => 2,
            Error::NotFound => 3,
            Error::AlreadyExists => 4,
            Error::BadRequest => 5,
            Error::WrongRole => 6,
        }
    }
}

/// The part a participant plays in the supply chain.
#[derive(Clone, Copy, Debug, PartialEq, Eq, Structural)]
pub enum Role {
    Farmer,
    Processor,
    Shipper,
    Retailer,
    Inspector,
    Other,
}

/// Lifecycle status of a product.
#[derive(Clone, Copy, Debug, PartialEq, Eq, Structural)]
pub enum ProductStatus {
    Created,
    InTransit,
    Processed,
    Inspected,
    Delivered,
    Recalled,
    Archived,
}

/// Roles that may register new products.
pub open spec fn may_register_products(role: Role) -> bool {
    role == Role::Farmer || role == Role::Other
}

/// An account on the ledger, identified by its textual key.
#[derive(Debug, PartialEq, Eq)]
pub struct Address {
    pub key: String,
}

impl View for Address {
    type V = Seq<char>;

    open spec fn view(&self) -> Seq<char> {
        self.key@
    }
}

impl Clone for Address {
    fn clone(&self) -> (res: Self)
        ensures
            res@ == self@,
    {
        Address { key: self.key.clone() }
    }
}

impl Address {
    /// Whether two addresses denote the same account.
    pub fn same_as(&self, other: &Address) -> (b: bool)
        ensures
            b == (self@ == other@),
    {
        self.key == other.key
    }
}

/// A registered supply chain participant.
#[derive(Debug)]
pub struct Participant {
    pub address: Address,
    pub role: Role,
    pub name: String,
    pub metadata: String,
    pub registered_at: u64,
}

pub struct ParticipantView {
    pub address: Seq<char>,
    pub role: Role,
    pub name: Seq<char>,
    pub metadata: Seq<char>,
    pub registered_at: u64,
}

impl View for Participant {
    type V = ParticipantView;

    open spec fn view(&self) -> ParticipantView {
        ParticipantView {
            address: self.address@,
            role: self.role,
            name: self.name@,
            metadata: self.metadata@,
            registered_at: self.registered_at,
        }
    }
}

impl Clone for Participant {
    fn clone(&self) -> (res: Self)
        ensures
            res@ == self@,
    {
        Participant {
            address: self.address.clone(),
            role: self.role,
            name: self.name.clone(),
            metadata: self.metadata.clone(),
            registered_at: self.registered_at,
        }
    }
}

/// A product tracked through the supply chain.
#[derive(Debug)]
pub struct Product {
    pub id: u64,
    pub name: String,
    pub origin: String,
    pub owner: Address,
    pub status: ProductStatus,
    pub metadata: String,
    pub created_at: u64,
    pub updated_at: u64,
}

pub struct ProductView {
    pub id: u64,
    pub name: Seq<char>,
    pub origin: Seq<char>,
    pub owner: Seq<char>,
    pub status: ProductStatus,
    pub metadata: Seq<char>,
    pub created_at: u64,
    pub updated_at: u64,
}

impl View for Product {
    type V = ProductView;

    open spec fn view(&self) -> ProductView {
        ProductView {
            id: self.id,
            name: self.name@,
            origin: self.origin@,
            owner: self.owner@,
            status: self.status,
            metadata: self.metadata@,
            created_at: self.created_at,
            updated_at: self.updated_at,
        }
    }
}

impl Clone for Product {
    fn clone(&self) -> (res: Self)
        ensures
            res@ == self@,
    {
        Product {
            id: self.id,
            name: self.name.clone(),
            origin: self.origin.clone(),
            owner: self.owner.clone(),
            status: self.status,
            metadata: self.metadata.clone(),
            created_at: self.created_at,
            updated_at: self.updated_at,
        }
    }
}

/// An entry of a product's history.
#[derive(Debug)]
pub struct Event {
    pub id: u64,
    pub product_id: u64,
    pub event_type: String,
    pub location: String,
    pub actor: Address,
    pub metadata: String,
    pub timestamp: u64,
}

pub struct EventView {
    pub id: u64,
    pub product_id: u64,
    pub event_type: Seq<char>,
    pub location: Seq<char>,
    pub actor: Seq<char>,
    pub metadata: Seq<char>,
    pub timestamp: u64,
}

impl View for Event {
    type V = EventView;

    open spec fn view(&self) -> EventView {
        EventView {
            id: self.id,
            product_id: self.product_id,
            event_type: self.event_type@,
            location: self.location@,
            actor: self.actor@,
            metadata: self.metadata@,
            timestamp: self.timestamp,
        }
    }
}

impl Clone for Event {
    fn clone(&self) -> (res: Self)
        ensures
            res@ == self@,
    {
        Event {
            id: self.id,
            product_id: self.product_id,
            event_type: self.event_type.clone(),
            location: self.location.clone(),
            actor: self.actor.clone(),
            metadata: self.metadata.clone(),
            timestamp: self.timestamp,
        }
    }
}

} // verus!
