use contacts::contact::{Contact, ContactId, NewContact, UpdateContactEmail, UpdateContactPhoneNo};
use contacts::errors::Error;
use contacts::in_memory::ContactsInMemoryRepository;
use contacts::repository::ContactsRepository;

fn payload(name: &str, phone_no: i64, email: &str) -> NewContact {
    NewContact {
        name: name.to_string(),
        phone_no,
        email: email.to_string(),
    }
}

fn assert_contact(c: &Contact, id: i32, name: &str, phone_no: i64, email: &str) {
    assert_eq!(id, c.id.0);
    assert_eq!(name, c.name);
    assert_eq!(phone_no, c.phone_no);
    assert_eq!(email, c.email);
}

#[test]
fn get_after_add_returns_the_record() {
    let mut repo = ContactsInMemoryRepository::new();
    let added = repo.add(payload("Ada", 491701234567, "ada@example.com")).unwrap();
    let got = repo.get(added.id).unwrap().unwrap();
    assert_contact(&got, added.id.0, "Ada", 491701234567, "ada@example.com");
}

#[test]
fn get_of_never_created_id_is_none() {
    let mut repo = ContactsInMemoryRepository::new();
    repo.add(payload("Ada", 1, "ada@example.com")).unwrap();
    assert!(repo.get(ContactId(42)).unwrap().is_none());
}

#[test]
fn delete_then_get_is_none() {
    let mut repo = ContactsInMemoryRepository::new();
    let added = repo.add(payload("Ada", 1, "ada@example.com")).unwrap();
    assert_eq!(Ok(()), repo.delete(added.id));
    assert!(repo.get(added.id).unwrap().is_none());
}

#[test]
fn delete_of_nonexistent_id_succeeds() {
    let mut repo = ContactsInMemoryRepository::new();
    repo.add(payload("Ada", 1, "ada@example.com")).unwrap();
    assert_eq!(Ok(()), repo.delete(ContactId(9)));
    assert_eq!(1, repo.count());
}

#[test]
fn update_of_nonexistent_id_is_a_no_op_success() {
    let mut repo = ContactsInMemoryRepository::new();
    let added = repo.add(payload("Ada", 1, "ada@example.com")).unwrap();
    let replacement = Contact {
        id: ContactId(7),
        name: "Bob".to_string(),
        phone_no: 2,
        email: "bob@example.com".to_string(),
    };
    assert_eq!(Ok(()), repo.update(replacement, ContactId(7)));
    assert_eq!(1, repo.count());
    assert!(repo.get(ContactId(7)).unwrap().is_none());
    let unchanged = repo.get(added.id).unwrap().unwrap();
    assert_contact(&unchanged, added.id.0, "Ada", 1, "ada@example.com");
}

#[test]
fn update_email_of_nonexistent_id_is_a_no_op_success() {
    let mut repo = ContactsInMemoryRepository::new();
    repo.add(payload("Ada", 1, "ada@example.com")).unwrap();
    assert_eq!(Ok(()), repo.update_email("x@example.com".to_string(), ContactId(9)));
    let unchanged = repo.get(ContactId(0)).unwrap().unwrap();
    assert_eq!("ada@example.com", unchanged.email);
}

#[test]
fn update_phone_no_of_nonexistent_id_is_a_no_op_success() {
    let mut repo = ContactsInMemoryRepository::new();
    repo.add(payload("Ada", 1, "ada@example.com")).unwrap();
    assert_eq!(Ok(()), repo.update_phone_no(77, ContactId(9)));
    let unchanged = repo.get(ContactId(0)).unwrap().unwrap();
    assert_eq!(1, unchanged.phone_no);
}

#[test]
fn update_replaces_fields_and_keeps_the_identifier() {
    let mut repo = ContactsInMemoryRepository::new();
    let added = repo.add(payload("Ada", 1, "ada@example.com")).unwrap();
    let replacement = Contact {
        id: ContactId(999),
        name: "Bob".to_string(),
        phone_no: 2,
        email: "bob@example.com".to_string(),
    };
    assert_eq!(Ok(()), repo.update(replacement, added.id));
    let got = repo.get(added.id).unwrap().unwrap();
    assert_contact(&got, added.id.0, "Bob", 2, "bob@example.com");
}

#[test]
fn update_email_changes_only_the_email() {
    let mut repo = ContactsInMemoryRepository::new();
    let added = repo.add(payload("Ada", 1, "ada@example.com")).unwrap();
    let change = UpdateContactEmail {
        email: "new@example.com".to_string(),
    };
    assert_eq!(Ok(()), repo.update_email(change.email, added.id));
    let got = repo.get(added.id).unwrap().unwrap();
    assert_contact(&got, added.id.0, "Ada", 1, "new@example.com");
}

#[test]
fn update_phone_no_changes_only_the_phone() {
    let mut repo = ContactsInMemoryRepository::new();
    let added = repo.add(payload("Ada", 1, "ada@example.com")).unwrap();
    let change = UpdateContactPhoneNo { phone_no: 42 };
    assert_eq!(Ok(()), repo.update_phone_no(change.phone_no, added.id));
    let got = repo.get(added.id).unwrap().unwrap();
    assert_contact(&got, added.id.0, "Ada", 42, "ada@example.com");
}

#[test]
fn three_adds_assign_pairwise_distinct_ids() {
    let mut repo = ContactsInMemoryRepository::new();
    let a = repo.add(payload("A", 1, "a@example.com")).unwrap();
    let b = repo.add(payload("B", 2, "b@example.com")).unwrap();
    let c = repo.add(payload("C", 3, "c@example.com")).unwrap();
    assert_ne!(a.id.0, b.id.0);
    assert_ne!(a.id.0, c.id.0);
    assert_ne!(b.id.0, c.id.0);
}

#[test]
fn add_skips_identifiers_that_are_still_taken() {
    let mut repo = ContactsInMemoryRepository::new();
    let a = repo.add(payload("A", 1, "a@example.com")).unwrap();
    let b = repo.add(payload("B", 2, "b@example.com")).unwrap();
    assert_eq!(0, a.id.0);
    assert_eq!(1, b.id.0);
    repo.delete(a.id).unwrap();
    // one record is left, so the search starts at 1, which is taken
    let c = repo.add(payload("C", 3, "c@example.com")).unwrap();
    assert_eq!(2, c.id.0);
    assert_ne!(b.id.0, c.id.0);
}

#[test]
fn get_all_pages_in_insertion_order() {
    let mut repo = ContactsInMemoryRepository::new();
    for k in 0..7i64 {
        repo.add(payload(&format!("N{k}"), k, "n@example.com")).unwrap();
    }
    let first = repo.get_all(None, None).unwrap();
    assert_eq!(5, first.len());
    assert_eq!("N0", first[0].name);
    assert_eq!("N4", first[4].name);
    let second = repo.get_all(Some(2), None).unwrap();
    assert_eq!(2, second.len());
    assert_eq!("N5", second[0].name);
    assert_eq!("N6", second[1].name);
}

#[test]
fn get_all_past_the_end_is_empty_not_an_error() {
    let mut repo = ContactsInMemoryRepository::new();
    repo.add(payload("Ada", 1, "ada@example.com")).unwrap();
    let page = repo.get_all(Some(5), Some(10)).unwrap();
    assert!(page.is_empty());
}

#[test]
fn get_all_rejects_page_number_zero() {
    let repo = ContactsInMemoryRepository::new();
    let result = repo.get_all(Some(0), Some(5));
    assert_eq!(Err(Error::StringToU32("0".to_string())), result);
}

#[test]
fn get_all_with_explicit_window() {
    let mut repo = ContactsInMemoryRepository::new();
    for k in 0..4i64 {
        repo.add(payload(&format!("N{k}"), k, "n@example.com")).unwrap();
    }
    let page = repo.get_all(Some(2), Some(2)).unwrap();
    assert_eq!(2, page.len());
    assert_eq!("N2", page[0].name);
    assert_eq!("N3", page[1].name);
}

#[test]
fn empty_repository_lists_nothing() {
    let repo = ContactsInMemoryRepository::default();
    assert_eq!(0, repo.count());
    assert!(repo.get_all(None, None).unwrap().is_empty());
}
