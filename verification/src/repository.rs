//! The repository abstraction: a storage-agnostic contract for CRUD and
//! paginated listing of contacts, together with the sequence model that the
//! contracts are stated over and the laws that relate the operations.

use vstd::prelude::*;

use crate::contact::{Contact, ContactId, NewContact};
use crate::errors::Error;
use crate::pagination::{effective_page_no, effective_page_size};

verus! {

/// Does the state hold a record with this identifier?
pub open spec fn contains_id(s: Seq<Contact>, id: i32) -> bool {
    exists|i: int| 0 <= i < s.len() && s[i].id.0 == id
}

/// The position of the record with this identifier (meaningful only when
/// `contains_id` holds; unique under `distinct_ids`).
pub open spec fn index_of_id(s: Seq<Contact>, id: i32) -> int {
    choose|i: int| 0 <= i < s.len() && s[i].id.0 == id
}

/// The record with this identifier, if any.
pub open spec fn lookup(s: Seq<Contact>, id: i32) -> Option<Contact> {
    if contains_id(s, id) {
        Some(s[index_of_id(s, id)])
    } else {
        None
    }
}

/// No two records share an identifier.
pub open spec fn distinct_ids(s: Seq<Contact>) -> bool {
    forall|i: int, j: int| 0 <= i < j < s.len() ==> s[i].id.0 != s[j].id.0
}

/// The state after removing the record with this identifier, if present.
pub open spec fn remove_id(s: Seq<Contact>, id: i32) -> Seq<Contact> {
    if contains_id(s, id) {
        s.remove(index_of_id(s, id))
    } else {
        s
    }
}

/// Every identifier from the record count up to the largest representable
/// one is taken: no insertion position is left for the id-assignment rule.
pub open spec fn out_of_ids(s: Seq<Contact>) -> bool {
    ||| s.len() > i32::MAX
    ||| (forall|j: int| s.len() <= j <= i32::MAX ==> #[trigger] contains_id(s, j as i32))
}

/// The listing window: the records from `offset` on, at most `limit` of
/// them, clipped to the state.
pub open spec fn page_window(s: Seq<Contact>, offset: int, limit: int) -> Seq<Contact> {
    let lo = if offset <= s.len() {
        offset
    } else {
        s.len() as int
    };
    let hi = if offset + limit <= s.len() {
        offset + limit
    } else {
        s.len() as int
    };
    if lo <= hi {
        s.subrange(lo, hi)
    } else {
        Seq::empty()
    }
}

/// Under `distinct_ids`, a position holding an identifier is the position
/// `index_of_id` names.
pub proof fn lemma_index_of_id_unique(s: Seq<Contact>, id: i32, i: int)
    requires
        distinct_ids(s),
        0 <= i < s.len(),
        s[i].id.0 == id,
    ensures
        contains_id(s, id),
        index_of_id(s, id) == i,
{
    assert(contains_id(s, id));
    let j = index_of_id(s, id);
    assert(0 <= j < s.len() && s[j].id.0 == id);
    if i < j {
        assert(s[i].id.0 != s[j].id.0);
    } else if j < i {
        assert(s[j].id.0 != s[i].id.0);
    }
}

/// Appending a record with a fresh identifier keeps identifiers distinct.
pub proof fn lemma_push_fresh_preserves_distinct(s: Seq<Contact>, c: Contact)
    requires
        distinct_ids(s),
        !contains_id(s, c.id.0),
    ensures
        distinct_ids(s.push(c)),
{
    assert forall|i: int, j: int| 0 <= i < j < s.push(c).len() implies s.push(c)[i].id.0 != s.push(
        c,
    )[j].id.0 by {
        if j < s.len() {
            assert(s[i].id.0 != s[j].id.0);
        } else {
            assert(s.push(c)[j] == c);
            if s[i].id.0 == c.id.0 {
                assert(contains_id(s, c.id.0));
            }
        }
    }
}

/// Removing a record keeps identifiers distinct.
pub proof fn lemma_remove_preserves_distinct(s: Seq<Contact>, i: int)
    requires
        distinct_ids(s),
        0 <= i < s.len(),
    ensures
        distinct_ids(s.remove(i)),
{
    assert forall|p: int, q: int| 0 <= p < q < s.remove(i).len() implies s.remove(i)[p].id.0
        != s.remove(i)[q].id.0 by {
        let p0 = if p < i {
            p
        } else {
            p + 1
        };
        let q0 = if q < i {
            q
        } else {
            q + 1
        };
        assert(s.remove(i)[p] == s[p0]);
        assert(s.remove(i)[q] == s[q0]);
        assert(s[p0].id.0 != s[q0].id.0);
    }
}

/// Replacing a record by one with the same identifier keeps identifiers
/// distinct.
pub proof fn lemma_update_same_id_preserves_distinct(s: Seq<Contact>, i: int, c: Contact)
    requires
        distinct_ids(s),
        0 <= i < s.len(),
        c.id.0 == s[i].id.0,
    ensures
        distinct_ids(s.update(i, c)),
{
}

/// Law: a record added under a fresh identifier is found again under that
/// identifier, and the lookup of every other identifier is unchanged.
pub proof fn lemma_get_after_add(s: Seq<Contact>, c: Contact)
    requires
        distinct_ids(s),
        !contains_id(s, c.id.0),
    ensures
        lookup(s.push(c), c.id.0) == Some(c),
        forall|id: i32| id != c.id.0 ==> lookup(s.push(c), id) == lookup(s, id),
{
    lemma_push_fresh_preserves_distinct(s, c);
    assert(s.push(c)[s.len() as int] == c);
    lemma_index_of_id_unique(s.push(c), c.id.0, s.len() as int);
    assert forall|id: i32| id != c.id.0 implies lookup(s.push(c), id) == lookup(s, id) by {
        if contains_id(s, id) {
            let i = index_of_id(s, id);
            assert(0 <= i < s.len() && s[i].id.0 == id);
            assert(s.push(c)[i] == s[i]);
            lemma_index_of_id_unique(s.push(c), id, i);
        } else {
            if contains_id(s.push(c), id) {
                let j = index_of_id(s.push(c), id);
                assert(0 <= j < s.push(c).len() && s.push(c)[j].id.0 == id);
                if j < s.len() {
                    assert(s[j].id.0 == id);
                    assert(contains_id(s, id));
                } else {
                    assert(s.push(c)[j] == c);
                }
            }
        }
    }
}

/// Law: the lookup of an identifier that was never assigned is empty.
pub proof fn lemma_get_absent(s: Seq<Contact>, id: i32)
    requires
        !contains_id(s, id),
    ensures
        lookup(s, id) is None,
{
}

/// Law: after a delete, the lookup of the deleted identifier is empty, and
/// the lookup of every other identifier is unchanged. Deleting an absent
/// identifier leaves the state as it was.
pub proof fn lemma_get_after_delete(s: Seq<Contact>, id: i32)
    requires
        distinct_ids(s),
    ensures
        lookup(remove_id(s, id), id) is None,
        forall|other: i32| other != id ==> lookup(remove_id(s, id), other) == lookup(s, other),
        !contains_id(s, id) ==> remove_id(s, id) == s,
{
    if contains_id(s, id) {
        let i = index_of_id(s, id);
        assert(0 <= i < s.len() && s[i].id.0 == id);
        let t = s.remove(i);
        lemma_remove_preserves_distinct(s, i);
        if contains_id(t, id) {
            let k = index_of_id(t, id);
            assert(0 <= k < t.len() && t[k].id.0 == id);
            let k0 = if k < i {
                k
            } else {
                k + 1
            };
            assert(t[k] == s[k0]);
            assert(s[k0].id.0 == id && s[i].id.0 == id && k0 != i);
            if k0 < i {
                assert(s[k0].id.0 != s[i].id.0);
            } else {
                assert(s[i].id.0 != s[k0].id.0);
            }
        }
        assert forall|other: i32| other != id implies lookup(t, other) == lookup(s, other) by {
            if contains_id(s, other) {
                let p = index_of_id(s, other);
                assert(0 <= p < s.len() && s[p].id.0 == other);
                assert(p != i);
                let p1 = if p < i {
                    p
                } else {
                    p - 1
                };
                assert(t[p1] == s[p]);
                lemma_index_of_id_unique(t, other, p1);
            } else {
                if contains_id(t, other) {
                    let q = index_of_id(t, other);
                    assert(0 <= q < t.len() && t[q].id.0 == other);
                    let q0 = if q < i {
                        q
                    } else {
                        q + 1
                    };
                    assert(t[q] == s[q0]);
                    assert(contains_id(s, other));
                }
            }
        }
    }
}

/// Law: identifiers assigned by two adds, each fresh for the state it saw,
/// are distinct. Under the repository's exclusive-write discipline every
/// interleaving of adds is such a sequence, so identifiers assigned under
/// concurrent load are pairwise distinct.
pub proof fn lemma_add_ids_distinct(s: Seq<Contact>, c1: Contact, c2: Contact)
    requires
        !contains_id(s, c1.id.0),
        !contains_id(s.push(c1), c2.id.0),
    ensures
        c1.id.0 != c2.id.0,
{
    assert(s.push(c1)[s.len() as int] == c1);
    assert(contains_id(s.push(c1), c1.id.0));
}

/// Contract for a contacts repository: CRUD and paginated listing over an
/// abstract state, a sequence of records with pairwise distinct identifiers.
///
/// Reads never fail; the lookup of an absent identifier is an empty option,
/// not an error. Mutating an absent identifier is a safe no-op here; a
/// store-backed implementation living outside the verified core may instead
/// signal `Error::NotFound`, so callers should be ready for both.
pub trait ContactsRepository: Sized {
    /// The abstract state: the stored records, in insertion order.
    spec fn repo(&self) -> Seq<Contact>;

    /// The state invariant: identifiers are pairwise distinct.
    spec fn inv(&self) -> bool;

    /// Returns the page of contacts selected by the optional 1-based page
    /// number and page size (defaults apply). The window is clipped to the
    /// state, so a page past the end is empty, never an error; page number 0
    /// and a window that does not fit in 32 bits are validation errors.
    fn get_all(&self, page_no: Option<u32>, page_size: Option<u32>) -> (r: Result<
        Vec<Contact>,
        Error,
    >)
        requires
            self.inv(),
        ensures
            ({
                let p = effective_page_no(page_no);
                let s = effective_page_size(page_size);
                &&& (p >= 1 && (p - 1) * s <= u32::MAX) ==> (r matches Ok(v) && v@ == page_window(
                    self.repo(),
                    (p - 1) * s,
                    s,
                ))
                &&& (p == 0 || (p - 1) * s > u32::MAX) ==> (r matches Err(e) && e is StringToU32)
            }),
    ;

    /// Returns the record with the given identifier, or nothing when it is
    /// absent: absence is not an error.
    fn get(&self, id: ContactId) -> (r: Result<Option<Contact>, Error>)
        requires
            self.inv(),
        ensures
            r == Ok::<Option<Contact>, Error>(lookup(self.repo(), id.0)),
    ;

    /// Inserts the payload under a fresh identifier and returns the new
    /// record: the first identifier not in use, searching upwards from the
    /// record count. Fails only when that search space is exhausted.
    fn add(&mut self, new_contact: NewContact) -> (r: Result<Contact, Error>)
        requires
            old(self).inv(),
        ensures
            final(self).inv(),
            !out_of_ids(old(self).repo()) ==> (r matches Ok(c) && {
                &&& c.name == new_contact.name
                &&& c.phone_no == new_contact.phone_no
                &&& c.email == new_contact.email
                &&& c.id.0 >= old(self).repo().len()
                &&& !contains_id(old(self).repo(), c.id.0)
                &&& forall|j: int|
                    old(self).repo().len() <= j < c.id.0 ==> #[trigger] contains_id(
                        old(self).repo(),
                        j as i32,
                    )
                &&& final(self).repo() == old(self).repo().push(c)
            }),
            out_of_ids(old(self).repo()) ==> (r matches Err(e) && e is Db && final(self).repo()
                == old(self).repo()),
    ;

    /// Replaces the name, phone number and email of the record with the
    /// given identifier by those of `contact`; the stored identifier never
    /// changes. A missing record is a safe no-op, and the call succeeds.
    fn update(&mut self, contact: Contact, id: ContactId) -> (r: Result<(), Error>)
        requires
            old(self).inv(),
        ensures
            final(self).inv(),
            r is Ok,
            !contains_id(old(self).repo(), id.0) ==> final(self).repo() == old(self).repo(),
            contains_id(old(self).repo(), id.0) ==> final(self).repo() == old(self).repo().update(
                index_of_id(old(self).repo(), id.0),
                (Contact {
                    id: ContactId(id.0),
                    name: contact.name,
                    phone_no: contact.phone_no,
                    email: contact.email,
                }),
            ),
    ;

    /// Replaces only the email of the record with the given identifier.
    /// A missing record is a safe no-op, and the call succeeds.
    fn update_email(&mut self, new_email: String, id: ContactId) -> (r: Result<(), Error>)
        requires
            old(self).inv(),
        ensures
            final(self).inv(),
            r is Ok,
            !contains_id(old(self).repo(), id.0) ==> final(self).repo() == old(self).repo(),
            contains_id(old(self).repo(), id.0) ==> ({
                let i = index_of_id(old(self).repo(), id.0);
                let c = old(self).repo()[i];
                final(self).repo() == old(self).repo().update(
                    i,
                    (Contact {
                        id: c.id,
                        name: c.name,
                        phone_no: c.phone_no,
                        email: new_email,
                    }),
                )
            }),
    ;

    /// Replaces only the phone number of the record with the given
    /// identifier. A missing record is a safe no-op, and the call succeeds.
    fn update_phone_no(&mut self, new_phone_no: i64, id: ContactId) -> (r: Result<(), Error>)
        requires
            old(self).inv(),
        ensures
            final(self).inv(),
            r is Ok,
            !contains_id(old(self).repo(), id.0) ==> final(self).repo() == old(self).repo(),
            contains_id(old(self).repo(), id.0) ==> ({
                let i = index_of_id(old(self).repo(), id.0);
                let c = old(self).repo()[i];
                final(self).repo() == old(self).repo().update(
                    i,
                    (Contact {
                        id: c.id,
                        name: c.name,
                        phone_no: new_phone_no,
                        email: c.email,
                    }),
                )
            }),
    ;

    /// Removes the record with the given identifier if it is present;
    /// a missing record is not an error.
    fn delete(&mut self, id: ContactId) -> (r: Result<(), Error>)
        requires
            old(self).inv(),
        ensures
            final(self).inv(),
            r is Ok,
            final(self).repo() == remove_id(old(self).repo(), id.0),
    ;
}

} // verus!
