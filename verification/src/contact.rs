//! The contact record and its payload types.

use vstd::prelude::*;

verus! {

/// Identifier of a contact, assigned by the store and immutable afterwards.
/// Equality and hashing are value-based.
#[derive(Debug, Clone, Copy, PartialEq, Eq, Hash, Structural)]
pub struct ContactId(pub i32);

/// A contact record: identifier, name, phone number and email address.
/// The phone number is a 64-bit signed integer to allow international formats.
#[derive(Debug, PartialEq, Eq)]
pub struct Contact {
    pub id: ContactId,
    pub name: String,
    pub phone_no: i64,
    pub email: String,
}

impl Clone for Contact {
    fn clone(&self) -> (r: Self)
        ensures
            r == *self,
    {
        Contact {
            id: self.id,
            name: self.name.clone(),
            phone_no: self.phone_no,
            email: self.email.clone(),
        }
    }
}

/// A creation payload: a contact without an identifier. The repository
/// assigns the identifier on insert.
#[derive(Debug)]
pub struct NewContact {
    pub name: String,
    pub phone_no: i64,
    pub email: String,
}

impl Clone for NewContact {
    fn clone(&self) -> (r: Self)
        ensures
            r == *self,
    {
        NewContact { name: self.name.clone(), phone_no: self.phone_no, email: self.email.clone() }
    }
}

/// Partial update payload carrying only a new email address.
#[derive(Debug)]
pub struct UpdateContactEmail {
    pub email: String,
}

/// Partial update payload carrying only a new phone number.
#[derive(Debug, Clone, Copy)]
pub struct UpdateContactPhoneNo {
    pub phone_no: i64,
}

} // verus!
