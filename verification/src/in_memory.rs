//! The in-memory repository: a vector of records, in insertion order, with
//! pairwise distinct identifiers. Used for testing and local development;
//! it meets the same contract as a store-backed repository. An embedding
//! application that serves concurrent requests wraps the whole value in a
//! reader/writer lock, so every mutation below runs under the exclusive
//! (write) side of that lock.

use vstd::prelude::*;

use crate::contact::{Contact, ContactId, NewContact};
use crate::errors::Error;
use crate::pagination::checked_limit_and_offset;
use crate::repository::{
    contains_id, distinct_ids, lemma_index_of_id_unique,
    lemma_push_fresh_preserves_distinct, lemma_remove_preserves_distinct,
    lemma_update_same_id_preserves_distinct, out_of_ids, page_window, remove_id, ContactsRepository,
};

verus! {

/// A repository backed by a plain in-memory vector of records.
#[derive(Debug)]
pub struct ContactsInMemoryRepository {
    data: Vec<Contact>,
}

impl ContactsInMemoryRepository {
    /// An empty repository.
    pub fn new() -> (r: Self)
        ensures
            r.repo() == Seq::<Contact>::empty(),
            r.inv(),
    {
        ContactsInMemoryRepository { data: Vec::new() }
    }

    /// How many records the repository holds.
    pub fn count(&self) -> (r: usize)
        ensures
            r == self.repo().len(),
    {
        self.data.len()
    }

    /// The position of the record with this identifier, if it is present.
    fn find_index(&self, id: i32) -> (r: Option<usize>)
        ensures
            r matches Some(i) ==> i < self.data@.len() && self.data@[i as int].id.0 == id,
            r is None ==> !contains_id(self.data@, id),
    {
        let n = self.data.len();
        let mut i: usize = 0;
        while i < n
            invariant
                i <= n,
                n == self.data@.len(),
                forall|j: int| 0 <= j < i ==> self.data@[j].id.0 != id,
            decreases n - i,
        {
            if self.data[i].id.0 == id {
                return Some(i);
            }
            i += 1;
        }
        None
    }
}

impl Default for ContactsInMemoryRepository {
    fn default() -> (r: Self)
        ensures
            r.repo() == Seq::<Contact>::empty(),
            r.inv(),
    {
        ContactsInMemoryRepository::new()
    }
}

impl ContactsRepository for ContactsInMemoryRepository {
    closed spec fn repo(&self) -> Seq<Contact> {
        self.data@
    }

    closed spec fn inv(&self) -> bool {
        distinct_ids(self.data@)
    }

    fn get_all(&self, page_no: Option<u32>, page_size: Option<u32>) -> (r: Result<
        Vec<Contact>,
        Error,
    >) {
        let (limit, offset) = match checked_limit_and_offset(page_no, page_size) {
            Ok(w) => w,
            Err(e) => {
                return Err(e);
            },
        };
        let n = self.data.len();
        let start: usize = if offset as usize > n {
            n
        } else {
            offset as usize
        };
        let end: usize = match start.checked_add(limit as usize) {
            Some(e) => if e > n {
                n
            } else {
                e
            },
            None => n,
        };
        let mut out: Vec<Contact> = Vec::new();
        let mut i: usize = start;
        while i < end
            invariant
                start <= i <= end <= n,
                n == self.data@.len(),
                out@ == self.data@.subrange(start as int, i as int),
            decreases end - i,
        {
            let c = self.data[i].clone();
            out.push(c);
            proof {
                assert(out@ =~= self.data@.subrange(start as int, i + 1 as int));
            }
            i += 1;
        }
        proof {
            assert(out@ =~= page_window(self.data@, offset as int, limit as int));
        }
        Ok(out)
    }

    fn get(&self, id: ContactId) -> (r: Result<Option<Contact>, Error>) {
        match self.find_index(id.0) {
            Some(i) => {
                proof {
                    lemma_index_of_id_unique(self.data@, id.0, i as int);
                }
                Ok(Some(self.data[i].clone()))
            },
            None => Ok(None),
        }
    }

    fn add(&mut self, new_contact: NewContact) -> (r: Result<Contact, Error>) {
        let n = self.data.len();
        if n > (i32::MAX as usize) {
            return Err(Error::Db("the repository has no identifier left to assign".to_owned()));
        }
        let mut id: i32 = n as i32;
        let mut taken = self.find_index(id).is_some();
        while taken
            invariant
                *self == *old(self),
                distinct_ids(self.data@),
                n == self.data@.len(),
                n <= id <= i32::MAX,
                taken == contains_id(self.data@, id),
                forall|j: int| n <= j < id ==> #[trigger] contains_id(self.data@, j as i32),
            decreases i32::MAX - id,
        {
            if id == i32::MAX {
                proof {
                    assert forall|j: int| n <= j <= i32::MAX implies #[trigger] contains_id(
                        self.data@,
                        j as i32,
                    ) by {
                        if j == i32::MAX {
                            assert(contains_id(self.data@, id));
                        }
                    }
                }
                return Err(
                    Error::Db("the repository has no identifier left to assign".to_owned()),
                );
            }
            id += 1;
            taken = self.find_index(id).is_some();
        }
        proof {
            assert(!contains_id(self.data@, (id as int) as i32));
            assert(!out_of_ids(self.data@));
        }
        let contact = Contact {
            id: ContactId(id),
            name: new_contact.name,
            phone_no: new_contact.phone_no,
            email: new_contact.email,
        };
        let stored = contact.clone();
        proof {
            lemma_push_fresh_preserves_distinct(self.data@, stored);
        }
        self.data.push(stored);
        Ok(contact)
    }

    fn update(&mut self, contact: Contact, id: ContactId) -> (r: Result<(), Error>) {
        match self.find_index(id.0) {
            Some(i) => {
                proof {
                    lemma_index_of_id_unique(self.data@, id.0, i as int);
                }
                let old_contact = self.data.remove(i);
                let updated = Contact {
                    id: old_contact.id,
                    name: contact.name,
                    phone_no: contact.phone_no,
                    email: contact.email,
                };
                self.data.insert(i, updated);
                proof {
                    assert(self.data@ =~= old(self).data@.update(
                        i as int,
                        (Contact {
                            id: ContactId(id.0),
                            name: contact.name,
                            phone_no: contact.phone_no,
                            email: contact.email,
                        }),
                    ));
                    lemma_update_same_id_preserves_distinct(
                        old(self).data@,
                        i as int,
                        self.data@[i as int],
                    );
                }
                Ok(())
            },
            None => Ok(()),
        }
    }

    fn update_email(&mut self, new_email: String, id: ContactId) -> (r: Result<(), Error>) {
        match self.find_index(id.0) {
            Some(i) => {
                proof {
                    lemma_index_of_id_unique(self.data@, id.0, i as int);
                }
                let old_contact = self.data.remove(i);
                let updated = Contact {
                    id: old_contact.id,
                    name: old_contact.name,
                    phone_no: old_contact.phone_no,
                    email: new_email,
                };
                self.data.insert(i, updated);
                proof {
                    let c = old(self).data@[i as int];
                    assert(self.data@ =~= old(self).data@.update(
                        i as int,
                        (Contact {
                            id: c.id,
                            name: c.name,
                            phone_no: c.phone_no,
                            email: new_email,
                        }),
                    ));
                    lemma_update_same_id_preserves_distinct(
                        old(self).data@,
                        i as int,
                        self.data@[i as int],
                    );
                }
                Ok(())
            },
            None => Ok(()),
        }
    }

    fn update_phone_no(&mut self, new_phone_no: i64, id: ContactId) -> (r: Result<(), Error>) {
        match self.find_index(id.0) {
            Some(i) => {
                proof {
                    lemma_index_of_id_unique(self.data@, id.0, i as int);
                }
                let old_contact = self.data.remove(i);
                let updated = Contact {
                    id: old_contact.id,
                    name: old_contact.name,
                    phone_no: new_phone_no,
                    email: old_contact.email,
                };
                self.data.insert(i, updated);
                proof {
                    let c = old(self).data@[i as int];
                    assert(self.data@ =~= old(self).data@.update(
                        i as int,
                        (Contact {
                            id: c.id,
                            name: c.name,
                            phone_no: new_phone_no,
                            email: c.email,
                        }),
                    ));
                    lemma_update_same_id_preserves_distinct(
                        old(self).data@,
                        i as int,
                        self.data@[i as int],
                    );
                }
                Ok(())
            },
            None => Ok(()),
        }
    }

    fn delete(&mut self, id: ContactId) -> (r: Result<(), Error>) {
        match self.find_index(id.0) {
            Some(i) => {
                proof {
                    lemma_index_of_id_unique(self.data@, id.0, i as int);
                    lemma_remove_preserves_distinct(self.data@, i as int);
                }
                self.data.remove(i);
                Ok(())
            },
            None => {
                proof {
                    assert(remove_id(self.data@, id.0) == self.data@);
                }
                Ok(())
            },
        }
    }
}

} // verus!
