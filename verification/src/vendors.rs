//! Record types of the keyed stores that live beside the wallet: vendors
//! with their offerings, and users with their deal lists.  The stores
//! themselves are external collaborators with no invariant beyond key
//! uniqueness; these are the records they hold.

use vstd::prelude::*;

verus! {

/// A loyalty program entry a vendor offers.
pub struct Loyalty {
    pub id: String,
}

/// A coupon a vendor offers.
pub struct Coupon {
    pub id: String,
}

/// A ticket a vendor offers.
pub struct Ticket {
    pub id: String,
}

/// A vendor record, keyed by its vendor id.
pub struct Vendor {
    pub vendor_id: String,
    pub name: String,
    pub logo: String,
    pub tags: Vec<String>,
    pub loyalty: Vec<Loyalty>,
    pub coupon: Vec<Coupon>,
    pub ticket: Vec<Ticket>,
}

/// A list of vendor records.
pub struct Vendors {
    pub vendors: Vec<Vendor>,
}

/// The subset of a vendor's record that deals carry along.
pub struct VendorMetadata {
    pub vendor_id: String,
    pub name: String,
    pub logo: String,
}

/// A user record, keyed by its user id, holding the deals subscribed to.
pub struct User {
    pub user_id: String,
    pub deals: Vec<String>,
}

} // verus!
