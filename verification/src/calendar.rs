//! Calendars, known by their id.

use uuid::Uuid;
use vstd::prelude::*;

verus! {

/// The 128-bit identifier of `uuid`, carried through as it is.
#[verifier::external_type_specification]
#[verifier::external_body]
pub struct ExUuid(Uuid);

/// `Clone::clone` of `Uuid`, which `derive` wrote for this `Copy` type: the
/// clone is the id itself.
pub assume_specification[ <Uuid as Clone>::clone ](id: &Uuid) -> (r: Uuid)
    ensures
        r == *id,
;

/// A calendar. A nil id means that the calendar is not stored yet.
#[derive(Debug)]
pub struct Calendar {
    id: Uuid,
}

impl Calendar {
    /// The id of the calendar.
    pub closed spec fn id(self) -> Uuid {
        self.id
    }

    /// The calendar with the given id.
    pub fn new(id: Uuid) -> (r: Calendar)
        ensures
            r.id() == id,
    {
        Calendar { id }
    }

    /// The id of the calendar.
    pub fn get_id(&self) -> (r: Uuid)
        ensures
            r == self.id(),
    {
        self.id
    }
}

} // verus!
