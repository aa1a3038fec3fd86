//! The address book: contacts by name, in the order they were added.

use vstd::prelude::*;
use vstd::string::*;
use crate::error::{ErrorView, Wallet713Error};

verus! {

/// A named peer and its public key.
#[derive(Debug, Clone, PartialEq, Eq)]
pub struct Contact {
    /// The public key of the contact, as a string.
    pub public_key: String,
    /// The name that the contact goes by: no two contacts of a book share it.
    pub name: String,
}

/// A `Contact` with each text as a sequence of characters.
pub ghost struct ContactView {
    pub public_key: Seq<char>,
    pub name: Seq<char>,
}

impl View for Contact {
    type V = ContactView;

    open spec fn view(&self) -> ContactView {
        ContactView { public_key: self.public_key@, name: self.name@ }
    }
}

impl Contact {
    /// A contact with this public key and name.
    pub fn new(public_key: &str, name: &str) -> (contact: Contact)
        ensures
            contact@ == (ContactView { public_key: public_key@, name: name@ }),
    {
        Contact { public_key: public_key.to_owned(), name: name.to_owned() }
    }

    /// A copy of this contact.
    pub fn copy(&self) -> (contact: Contact)
        ensures
            contact@ == self@,
    {
        Contact { public_key: self.public_key.clone(), name: self.name.clone() }
    }
}

/// The contacts that a list holds, each by its view.
pub open spec fn contact_views(contacts: Seq<Contact>) -> Seq<ContactView> {
    Seq::new(contacts.len(), |i: int| contacts[i]@)
}

/// Whether a contact of this name is in the book.
pub open spec fn has_name(book: Seq<ContactView>, name: Seq<char>) -> bool {
    exists|i: int| 0 <= i < book.len() && (#[trigger] book[i]).name == name
}

/// Whether no two contacts of the book share a name.
pub open spec fn names_unique(book: Seq<ContactView>) -> bool {
    forall|i: int, j: int|
        0 <= i < j < book.len() ==> (#[trigger] book[i]).name != (#[trigger] book[j]).name
}

/// The book after `contact` was added: unchanged where its name is taken,
/// else with the contact at the end.
pub open spec fn spec_add(book: Seq<ContactView>, contact: ContactView) -> Result<
    Seq<ContactView>,
    ErrorView,
> {
    if has_name(book, contact.name) {
        Err(ErrorView::DuplicateContact(contact.name))
    } else {
        Ok(book.push(contact))
    }
}

/// The first place from `from` on whose contact has the name of an earlier
/// one, if there is such a place.
pub open spec fn repeat_from(book: Seq<ContactView>, from: int) -> Option<int>
    decreases book.len() - from,
{
    if from < 0 || from >= book.len() {
        None
    } else if has_name(book.take(from), book[from].name) {
        Some(from)
    } else {
        repeat_from(book, from + 1)
    }
}

/// The first place whose contact has the name of an earlier one.
pub open spec fn first_repeat(book: Seq<ContactView>) -> Option<int> {
    repeat_from(book, 0)
}

/// The book without its contacts of this name, the others in their order.
pub open spec fn without_name(book: Seq<ContactView>, name: Seq<char>) -> Seq<ContactView> {
    book.filter(|c: ContactView| c.name != name)
}

/// The book after the contact of this name was removed, or `ContactNotFound`
/// where there is none.
pub open spec fn spec_remove(book: Seq<ContactView>, name: Seq<char>) -> Result<
    Seq<ContactView>,
    ErrorView,
> {
    if has_name(book, name) {
        Ok(without_name(book, name))
    } else {
        Err(ErrorView::ContactNotFound(name))
    }
}

/// The contacts of a wallet. No two of them share a name, and they stay in
/// the order in which they were added.
#[derive(Debug, Clone, PartialEq, Eq)]
pub struct AddressBook {
    contacts: Vec<Contact>,
}

impl View for AddressBook {
    type V = Seq<ContactView>;

    closed spec fn view(&self) -> Seq<ContactView> {
        contact_views(self.contacts@)
    }
}

/// Removing a name from a book of unique names takes out one contact, the
/// one at the place where the name stands.
pub proof fn lemma_without_name_is_remove(book: Seq<ContactView>, at: int)
    requires
        names_unique(book),
        0 <= at < book.len(),
    ensures
        without_name(book, book[at].name) == book.remove(at),
    decreases book.len(),
{
    let name = book[at].name;
    let keep = |c: ContactView| c.name != name;
    let front = book.drop_last();
    assert(book =~= front.push(book.last()));
    reveal(Seq::filter);
    if at == book.len() - 1 {
        lemma_filter_keeps_all(front, name);
        assert(book.remove(at) =~= front);
    } else {
        assert(names_unique(front)) by {
            assert forall|i: int, j: int| 0 <= i < j < front.len() implies (#[trigger] front[i]).name
                != (#[trigger] front[j]).name by {
                assert(front[i] == book[i] && front[j] == book[j]);
            }
        }
        assert(front[at] == book[at]);
        lemma_without_name_is_remove(front, at);
        assert(book.last().name != name) by {
            assert(book[at].name != book[book.len() - 1].name);
        }
        assert(book.remove(at) =~= front.remove(at).push(book.last()));
    }
}

/// A book that does not hold a name loses nothing when the name is removed.
pub proof fn lemma_filter_keeps_all(book: Seq<ContactView>, name: Seq<char>)
    requires
        forall|i: int| 0 <= i < book.len() ==> (#[trigger] book[i]).name != name,
    ensures
        without_name(book, name) == book,
    decreases book.len(),
{
    reveal(Seq::filter);
    if book.len() > 0 {
        let front = book.drop_last();
        assert forall|i: int| 0 <= i < front.len() implies (#[trigger] front[i]).name != name by {
            assert(front[i] == book[i]);
        }
        lemma_filter_keeps_all(front, name);
        assert(book[book.len() - 1].name != name);
        assert(book =~= front.push(book.last()));
    }
}

impl AddressBook {
    /// Whether the book is as it should be: no two contacts share a name.
    pub open spec fn wf(&self) -> bool {
        names_unique(self@)
    }

    /// A book without contacts.
    pub fn new() -> (book: AddressBook)
        ensures
            book.wf(),
            book@ == Seq::<ContactView>::empty(),
    {
        let book = AddressBook { contacts: Vec::new() };
        assert(book@ =~= Seq::<ContactView>::empty());
        book
    }

    /// How many contacts the book holds.
    pub fn len(&self) -> (n: usize)
        ensures
            n == self@.len(),
    {
        self.contacts.len()
    }

    /// The place of the contact of this name, if there is one.
    fn position(&self, name: &str) -> (at: Option<usize>)
        ensures
            match at {
                Some(k) => k < self@.len() && self@[k as int].name == name@,
                None => !has_name(self@, name@),
            },
    {
        let wanted = name.to_owned();
        let mut i: usize = 0;
        while i < self.contacts.len()
            invariant
                i <= self.contacts.len(),
                wanted@ == name@,
                forall|j: int| 0 <= j < i ==> (#[trigger] self@[j]).name != name@,
            decreases self.contacts.len() - i,
        {
            if self.contacts[i].name == wanted {
                return Some(i);
            }
            i = i + 1;
        }
        None
    }

    /// Whether a contact of this name is in the book.
    pub fn contains_name(&self, name: &str) -> (r: bool)
        ensures
            r == has_name(self@, name@),
    {
        self.position(name).is_some()
    }

    /// Adds a contact at the end of the book. Fails with `DuplicateContact`
    /// and the name, leaving the book as it was, where the name is taken.
    pub fn add_contact(&mut self, contact: &Contact) -> (r: Result<(), Wallet713Error>)
        requires
            old(self).wf(),
        ensures
            final(self).wf(),
            match spec_add(old(self)@, contact@) {
                Ok(book) => r is Ok && final(self)@ == book,
                Err(e) => r is Err && r->Err_0@ == e && final(self)@ == old(self)@,
            },
    {
        if self.contains_name(contact.name.as_str()) {
            return Err(Wallet713Error::DuplicateContact(contact.name.clone()));
        }
        let ghost before = self@;
        self.contacts.push(contact.copy());
        proof {
            assert(self@ =~= before.push(contact@));
            assert forall|i: int, j: int| 0 <= i < j < self@.len() implies (#[trigger] self@[i]).name
                != (#[trigger] self@[j]).name by {
                assert(self@[i] == before[i]);
                if j < before.len() {
                    assert(self@[j] == before[j]);
                }
            }
        }
        Ok(())
    }

    /// Removes the contact of this name; the others keep their order. Fails
    /// with `ContactNotFound` and the name, leaving the book as it was, where
    /// no contact has the name.
    pub fn remove_contact_by_name(&mut self, name: &str) -> (r: Result<(), Wallet713Error>)
        requires
            old(self).wf(),
        ensures
            final(self).wf(),
            match spec_remove(old(self)@, name@) {
                Ok(book) => r is Ok && final(self)@ == book,
                Err(e) => r is Err && r->Err_0@ == e && final(self)@ == old(self)@,
            },
    {
        match self.position(name) {
            Some(at) => {
                let ghost before = self@;
                self.contacts.remove(at);
                proof {
                    assert(self@ =~= before.remove(at as int));
                    lemma_without_name_is_remove(before, at as int);
                    assert forall|i: int, j: int| 0 <= i < j < self@.len() implies (
                    #[trigger] self@[i]).name != (#[trigger] self@[j]).name by {
                        let a = if i < at { i } else { i + 1 };
                        let b = if j < at { j } else { j + 1 };
                        assert(self@[i] == before[a]);
                        assert(self@[j] == before[b]);
                    }
                }
                Ok(())
            },
            None => Err(Wallet713Error::ContactNotFound(name.to_owned())),
        }
    }

    /// The contacts of the book in the order in which they were added. Each
    /// call starts from the first contact again.
    pub fn contact_iter(&self) -> (list: Vec<Contact>)
        ensures
            contact_views(list@) == self@,
    {
        let mut list: Vec<Contact> = Vec::new();
        let mut i: usize = 0;
        while i < self.contacts.len()
            invariant
                i <= self.contacts.len(),
                list@.len() == i,
                forall|j: int| 0 <= j < i ==> list@[j]@ == self@[j],
            decreases self.contacts.len() - i,
        {
            list.push(self.contacts[i].copy());
            i = i + 1;
        }
        proof {
            assert(contact_views(list@) =~= self@);
        }
        list
    }

    /// The contact at a place of the book, counted from 0 in the order in
    /// which the contacts were added; none behind the last.
    pub fn contact_at(&self, index: usize) -> (r: Option<&Contact>)
        ensures
            match r {
                Some(contact) => index < self@.len() && contact@ == self@[index as int],
                None => index >= self@.len(),
            },
    {
        if index < self.contacts.len() {
            Some(&self.contacts[index])
        } else {
            None
        }
    }

    /// A book of the given contacts, as they were stored. Fails with
    /// `DuplicateContact` and the name of the first contact whose name an
    /// earlier one has.
    pub fn from_contacts(contacts: &Vec<Contact>) -> (r: Result<AddressBook, Wallet713Error>)
        ensures
            match r {
                Ok(book) => book.wf() && book@ == contact_views(contacts@) && first_repeat(
                    contact_views(contacts@),
                ) is None,
                Err(e) => match first_repeat(contact_views(contacts@)) {
                    Some(k) => e@ == ErrorView::DuplicateContact(contacts@[k]@.name),
                    None => false,
                },
            },
    {
        let mut book = AddressBook::new();
        let ghost all = contact_views(contacts@);
        let mut i: usize = 0;
        proof {
            assert(all.take(0) =~= Seq::<ContactView>::empty());
        }
        while i < contacts.len()
            invariant
                i <= contacts.len(),
                all == contact_views(contacts@),
                book.wf(),
                book@ == all.take(i as int),
                first_repeat(all) == repeat_from(all, i as int),
            decreases contacts.len() - i,
        {
            let ghost before = book@;
            match book.add_contact(&contacts[i]) {
                Ok(()) => {
                    proof {
                        assert(all.take(i + 1) =~= before.push(all[i as int]));
                    }
                },
                Err(e) => {
                    return Err(e);
                },
            }
            i = i + 1;
        }
        proof {
            assert(all.take(i as int) =~= all);
        }
        Ok(book)
    }
}

/// The book to go on with after an attempt to persist a change: the book
/// after the change where it was persisted, and the book before it where it
/// was not. So the book in memory and the book on disk never part: a change
/// counts as a whole or not at all.
pub open spec fn spec_book_to_keep(
    before: Seq<ContactView>,
    after: Seq<ContactView>,
    persisted: bool,
) -> Seq<ContactView> {
    if persisted {
        after
    } else {
        before
    }
}

/// Chooses the book to go on with after an attempt to persist a change.
pub fn book_to_keep(before: AddressBook, after: AddressBook, persisted: bool) -> (kept:
    AddressBook)
    requires
        before.wf(),
        after.wf(),
    ensures
        kept.wf(),
        kept@ == spec_book_to_keep(before@, after@, persisted),
{
    if persisted {
        after
    } else {
        before
    }
}

/// Adding a second contact under a name that was just added fails, whatever
/// its key, and leaves the book with the first.
pub proof fn lemma_second_add_is_refused(
    book: Seq<ContactView>,
    first: ContactView,
    second: ContactView,
)
    requires
        spec_add(book, first) is Ok,
        second.name == first.name,
    ensures
        spec_add(spec_add(book, first)->Ok_0, second) == Err::<Seq<ContactView>, ErrorView>(
            ErrorView::DuplicateContact(first.name),
        ),
{
    let after = book.push(first);
    assert(after[book.len() as int].name == second.name);
}

/// A name that was never added to a book, from the empty one on, is not in
/// it, so removing it fails with `ContactNotFound` and changes nothing.
pub proof fn lemma_remove_of_absent_name(book: Seq<ContactView>, name: Seq<char>)
    requires
        !has_name(book, name),
    ensures
        spec_remove(book, name) == Err::<Seq<ContactView>, ErrorView>(
            ErrorView::ContactNotFound(name),
        ),
        without_name(book, name) == book,
{
    assert forall|i: int| 0 <= i < book.len() implies (#[trigger] book[i]).name != name by {}
    lemma_filter_keeps_all(book, name);
}

/// A contact that was added is found under its name, and so can be removed;
/// removing it gives back the book as it was before.
pub proof fn lemma_add_then_remove(book: Seq<ContactView>, contact: ContactView)
    requires
        names_unique(book),
        spec_add(book, contact) is Ok,
    ensures
        spec_remove(spec_add(book, contact)->Ok_0, contact.name) == Ok::<
            Seq<ContactView>,
            ErrorView,
        >(book),
{
    let after = book.push(contact);
    assert(after[book.len() as int].name == contact.name);
    assert(names_unique(after)) by {
        assert forall|i: int, j: int| 0 <= i < j < after.len() implies (#[trigger] after[i]).name != (
        #[trigger] after[j]).name by {
            assert(after[i] == book[i]);
            if j < book.len() {
                assert(after[j] == book[j]);
            }
        }
    }
    lemma_without_name_is_remove(after, book.len() as int);
    assert(after.remove(book.len() as int) =~= book);
}

} // verus!
