use wallet713::command::ContactsCommand;
use wallet713::contacts::{book_to_keep, AddressBook, Contact};
use wallet713::dispatch::{do_contacts, ContactsReport};
use wallet713::error::Wallet713Error;

fn book_of(entries: &[(&str, &str)]) -> AddressBook {
    let mut book = AddressBook::new();
    for (name, key) in entries {
        book.add_contact(&Contact::new(key, name)).unwrap();
    }
    book
}

#[test]
fn new_contact_takes_key_then_name() {
    let contact = Contact::new("K1", "alice");
    assert_eq!(contact.public_key, "K1");
    assert_eq!(contact.name, "alice");
    assert_eq!(contact.copy(), contact);
}

#[test]
fn duplicate_name_is_refused_and_first_entry_stays() {
    let mut book = AddressBook::new();
    assert_eq!(book.add_contact(&Contact::new("K1", "alice")), Ok(()));
    assert_eq!(
        book.add_contact(&Contact::new("K2", "alice")),
        Err(Wallet713Error::DuplicateContact("alice".to_string()))
    );
    assert_eq!(book.contact_iter(), vec![Contact::new("K1", "alice")]);
    assert_eq!(book.len(), 1);
}

#[test]
fn same_key_under_another_name_is_accepted() {
    let mut book = book_of(&[("alice", "K1")]);
    assert_eq!(book.add_contact(&Contact::new("K1", "bob")), Ok(()));
    assert_eq!(book.len(), 2);
}

#[test]
fn removing_unknown_name_fails_and_changes_nothing() {
    let mut book = book_of(&[("alice", "K1"), ("bob", "K2")]);
    let before = book.clone();
    assert_eq!(
        book.remove_contact_by_name("carol"),
        Err(Wallet713Error::ContactNotFound("carol".to_string()))
    );
    assert_eq!(book, before);
}

#[test]
fn removing_from_empty_book_fails() {
    let mut book = AddressBook::new();
    assert_eq!(
        book.remove_contact_by_name("alice"),
        Err(Wallet713Error::ContactNotFound("alice".to_string()))
    );
    assert_eq!(book.len(), 0);
}

#[test]
fn contacts_come_in_the_order_they_were_added() {
    let book = book_of(&[("carol", "K3"), ("alice", "K1"), ("bob", "K2")]);
    let names: Vec<String> = book.contact_iter().into_iter().map(|c| c.name).collect();
    assert_eq!(names, vec!["carol", "alice", "bob"]);
}

#[test]
fn listing_can_be_started_again() {
    let book = book_of(&[("alice", "K1"), ("bob", "K2")]);
    assert_eq!(book.contact_iter(), book.contact_iter());
}

#[test]
fn removing_keeps_the_order_of_the_others() {
    let mut book = book_of(&[("carol", "K3"), ("alice", "K1"), ("bob", "K2")]);
    assert_eq!(book.remove_contact_by_name("alice"), Ok(()));
    assert_eq!(
        book.contact_iter(),
        vec![Contact::new("K3", "carol"), Contact::new("K2", "bob")]
    );
    assert!(!book.contains_name("alice"));
    assert!(book.contains_name("bob"));
}

#[test]
fn removed_name_can_be_added_again_at_the_end() {
    let mut book = book_of(&[("alice", "K1"), ("bob", "K2")]);
    book.remove_contact_by_name("alice").unwrap();
    assert_eq!(book.add_contact(&Contact::new("K9", "alice")), Ok(()));
    assert_eq!(
        book.contact_iter(),
        vec![Contact::new("K2", "bob"), Contact::new("K9", "alice")]
    );
}

#[test]
fn add_then_remove_gives_the_book_back() {
    let mut book = book_of(&[("alice", "K1")]);
    let before = book.clone();
    book.add_contact(&Contact::new("K2", "bob")).unwrap();
    book.remove_contact_by_name("bob").unwrap();
    assert_eq!(book, before);
}

#[test]
fn stored_contacts_make_a_book() {
    let stored = vec![Contact::new("K1", "alice"), Contact::new("K2", "bob")];
    let book = AddressBook::from_contacts(&stored).unwrap();
    assert_eq!(book.contact_iter(), stored);
}

#[test]
fn stored_contacts_with_a_name_twice_are_refused() {
    let stored = vec![
        Contact::new("K1", "alice"),
        Contact::new("K2", "bob"),
        Contact::new("K3", "alice"),
    ];
    assert_eq!(
        AddressBook::from_contacts(&stored),
        Err(Wallet713Error::DuplicateContact("alice".to_string()))
    );
}

#[test]
fn listing_an_empty_book_says_so() {
    let mut book = AddressBook::new();
    assert_eq!(do_contacts(&ContactsCommand::List, &mut book), Ok(ContactsReport::EmptyBook));
}

#[test]
fn listing_gives_every_contact() {
    let mut book = book_of(&[("alice", "K1"), ("bob", "K2")]);
    assert_eq!(
        do_contacts(&ContactsCommand::List, &mut book),
        Ok(ContactsReport::Listing(vec![Contact::new("K1", "alice"), Contact::new("K2", "bob")]))
    );
}

#[test]
fn contacts_command_adds_and_removes() {
    let mut book = AddressBook::new();
    let add = ContactsCommand::Add { name: "alice".to_string(), public_key: "K1".to_string() };
    assert_eq!(do_contacts(&add, &mut book), Ok(ContactsReport::Added));
    assert_eq!(book.contact_iter(), vec![Contact::new("K1", "alice")]);
    assert_eq!(
        do_contacts(&add, &mut book),
        Err(Wallet713Error::DuplicateContact("alice".to_string()))
    );
    let remove = ContactsCommand::Remove { name: "alice".to_string() };
    assert_eq!(do_contacts(&remove, &mut book), Ok(ContactsReport::Removed));
    assert_eq!(book.len(), 0);
    assert_eq!(
        do_contacts(&remove, &mut book),
        Err(Wallet713Error::ContactNotFound("alice".to_string()))
    );
}

#[test]
fn contacts_by_their_place() {
    let book = book_of(&[("carol", "K3"), ("alice", "K1")]);
    assert_eq!(book.contact_at(0), Some(&Contact::new("K3", "carol")));
    assert_eq!(book.contact_at(1), Some(&Contact::new("K1", "alice")));
    assert_eq!(book.contact_at(2), None);
    assert_eq!(AddressBook::new().contact_at(0), None);
}

#[test]
fn change_counts_only_once_it_is_persisted() {
    let before = book_of(&[("alice", "K1")]);
    let after = book_of(&[("alice", "K1"), ("bob", "K2")]);
    assert_eq!(book_to_keep(before.clone(), after.clone(), true), after);
    assert_eq!(book_to_keep(before.clone(), after.clone(), false), before);
}
