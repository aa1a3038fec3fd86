//! What holds of the command interpreter on whole families of lines.

use vstd::prelude::*;
use vstd::string::*;
use crate::amount::{spec_amount, whole_coins};
use crate::command::{CommandView, ContactsCommandView};
use crate::config::ConfigView;
use crate::contacts::ContactView;
use crate::dispatch::{
    spec_action,
    spec_book_after,
    spec_connection_after,
    ActionView,
    ContactsReportView,
};
use crate::session::{relay_uri_field, ConfigStatusView, Connection};
use crate::error::ErrorView;
use crate::number::{decimal_value, spec_tx_id};
use crate::parser::{no_names, send_value_names, spec_parse};
use crate::scan::{empty_scan, is_dashed, position_of, scan_from, spec_scan, ScanView};
use crate::text::{
    is_separator,
    lemma_blank_line_has_no_words,
    lemma_trailing_separators_are_ignored,
    split_words,
};

verus! {

/// A line of white space alone, the empty line among them, is read as no
/// command and no failure.
pub proof fn lemma_blank_line_is_no_command(line: Seq<char>)
    requires
        forall|i: int| 0 <= i < line.len() ==> is_separator(#[trigger] line[i]),
    ensures
        spec_parse(line) == Ok::<Option<CommandView>, ErrorView>(None),
{
    lemma_blank_line_has_no_words(line);
}

/// A line is read the same with and without white space at its end: the
/// end of the line that comes with the input changes nothing.
pub proof fn lemma_line_end_is_ignored(line: Seq<char>, tail: Seq<char>)
    requires
        forall|i: int| 0 <= i < tail.len() ==> is_separator(#[trigger] tail[i]),
    ensures
        spec_parse(line + tail) == spec_parse(line),
{
    lemma_trailing_separators_are_ignored(line, tail);
}

/// What the names of the commands and options look like, character by
/// character: enough to tell each from the others.
proof fn lemma_names_differ()
    ensures
        "repost"@.len() == 6 && "repost"@[0] == 'r' && "repost"@[2] == 'p',
        "send"@.len() == 4 && "send"@[0] == 's' && "send"@[1] == 'e',
        "exit"@.len() == 4 && "exit"@[0] == 'e',
        "config"@.len() == 6 && "config"@[0] == 'c',
        "init"@.len() == 4 && "init"@[0] == 'i',
        "listen"@.len() == 6 && "listen"@[0] == 'l',
        "subscribe"@.len() == 9,
        "unsubscribe"@.len() == 11,
        "stop"@.len() == 4 && "stop"@[1] == 't',
        "info"@.len() == 4 && "info"@[0] == 'i',
        "txs"@.len() == 3,
        "contacts"@.len() == 8,
        "outputs"@.len() == 7,
        "cancel"@.len() == 6 && "cancel"@[0] == 'c',
        "contacts"@[0] == 'c' && "listen"@[1] == 'i',
        "to"@ == seq!['t', 'o'],
        "amount"@ == seq!['a', 'm', 'o', 'u', 'n', 't'],
        "--to"@ == seq!['-', '-', 't', 'o'],
        "--amount"@ == seq!['-', '-', 'a', 'm', 'o', 'u', 'n', 't'],
{
    reveal_strlit("repost");
    reveal_strlit("send");
    reveal_strlit("exit");
    reveal_strlit("config");
    reveal_strlit("init");
    reveal_strlit("listen");
    reveal_strlit("subscribe");
    reveal_strlit("unsubscribe");
    reveal_strlit("stop");
    reveal_strlit("info");
    reveal_strlit("txs");
    reveal_strlit("contacts");
    reveal_strlit("outputs");
    reveal_strlit("cancel");
    reveal_strlit("to");
    reveal_strlit("amount");
    reveal_strlit("--to");
    reveal_strlit("--amount");
    assert("to"@ =~= seq!['t', 'o']);
    assert("amount"@ =~= seq!['a', 'm', 'o', 'u', 'n', 't']);
    assert("--to"@ =~= seq!['-', '-', 't', 'o']);
    assert("--amount"@ =~= seq!['-', '-', 'a', 'm', 'o', 'u', 'n', 't']);
}

/// A line whose words are `repost` and one more word, which is no option,
/// is read as that command with the empty password and the word's number
/// where the word is a transaction id, and fails with `InvalidTxId` and the
/// word where it is none.
pub proof fn lemma_repost_reads_its_id(line: Seq<char>, word: Seq<char>)
    requires
        split_words(line) == seq!["repost"@, word],
        !is_dashed(word),
    ensures
        spec_parse(line) == match spec_tx_id(word) {
            Some(id) => Ok::<Option<CommandView>, ErrorView>(
                Some(CommandView::Repost { password: Seq::empty(), id }),
            ),
            None => Err::<Option<CommandView>, ErrorView>(ErrorView::InvalidTxId(word)),
        },
{
    lemma_names_differ();
    let words = split_words(line);
    let args = words.skip(1);
    assert(args =~= seq![word]);
    let start = empty_scan(no_names(), no_names());
    let read = ScanView {
        values: start.values,
        flags: start.flags,
        positionals: start.positionals.push(word),
    };
    assert(args.drop_first() =~= Seq::<Seq<char>>::empty());
    reveal_with_fuel(scan_from, 3);
    assert(spec_scan(args, no_names(), no_names()) == Ok::<ScanView, ErrorView>(read));
    assert(read.positionals =~= seq![word]);
    assert(read.positionals.last() == word);
}

/// A line whose words are `send --to T --amount A` is read as that command
/// with the empty password, the address T and the amount that A stands for
/// in the smallest unit, and fails with `InvalidAmount` and A where A stands
/// for none.
pub proof fn lemma_send_reads_address_and_amount(
    line: Seq<char>,
    to: Seq<char>,
    amount: Seq<char>,
)
    requires
        split_words(line) == seq!["send"@, "--to"@, to, "--amount"@, amount],
    ensures
        spec_parse(line) == match spec_amount(amount) {
            Ok(units) => Ok::<Option<CommandView>, ErrorView>(
                Some(CommandView::Send { password: Seq::empty(), to, amount: units }),
            ),
            Err(e) => Err::<Option<CommandView>, ErrorView>(e),
        },
{
    lemma_names_differ();
    let words = split_words(line);
    let args = words.skip(1);
    assert(args =~= seq!["--to"@, to, "--amount"@, amount]);
    let names = send_value_names();
    let start = empty_scan(names, no_names());
    assert("--to"@.skip(2) =~= "to"@);
    assert("--amount"@.skip(2) =~= "amount"@);
    assert(is_dashed("--to"@) && is_dashed("--amount"@));
    assert(names.drop_first() =~= seq!["amount"@]);
    reveal_with_fuel(position_of, 3);
    assert(position_of(names, "to"@) == Some(0int));
    assert("to"@ != "amount"@) by {
        assert("to"@.len() != "amount"@.len());
    }
    assert(position_of(names, "amount"@) == Some(1int));
    let first = ScanView {
        values: start.values.update(0, Some(to)),
        flags: start.flags,
        positionals: start.positionals,
    };
    let second = ScanView {
        values: first.values.update(1, Some(amount)),
        flags: first.flags,
        positionals: first.positionals,
    };
    let rest = args.skip(2);
    assert(rest =~= seq!["--amount"@, amount]);
    assert(rest.skip(2) =~= Seq::<Seq<char>>::empty());
    reveal_with_fuel(scan_from, 4);
    assert(scan_from(rest.skip(2), names, no_names(), second) == Ok::<ScanView, ErrorView>(
        second,
    ));
    assert(scan_from(rest, names, no_names(), first) == Ok::<ScanView, ErrorView>(second));
    assert(spec_scan(args, names, no_names()) == Ok::<ScanView, ErrorView>(second));
}

/// A line whose words are `send --to T --amount A`, with A a text of digits
/// alone, is read as that command with the empty password, the address T
/// and A whole coins in the smallest unit: a thousand million for each.
pub proof fn lemma_send_reads_whole_coins(line: Seq<char>, to: Seq<char>, amount: Seq<char>)
    requires
        split_words(line) == seq!["send"@, "--to"@, to, "--amount"@, amount],
        whole_coins(amount) is Some,
    ensures
        spec_parse(line) == Ok::<Option<CommandView>, ErrorView>(
            Some(
                CommandView::Send {
                    password: Seq::empty(),
                    to,
                    amount: (decimal_value(amount) * 1_000_000_000) as u64,
                },
            ),
        ),
        decimal_value(amount) * 1_000_000_000 <= u64::MAX,
{
    lemma_send_reads_address_and_amount(line, to, amount);
}

/// A line whose words are `listen` and at most a password asks for no
/// client where the stored configuration has no address of the relay: it
/// fails with `ConfigMissingValue`, and a session without a client is left
/// without one.
pub proof fn lemma_listen_line_without_uri(
    line: Seq<char>,
    config: ConfigView,
    book: Seq<ContactView>,
)
    requires
        split_words(line).len() == 1 || (split_words(line).len() == 2 && !is_dashed(
            split_words(line)[1],
        )),
        split_words(line)[0] == "listen"@,
        config.grinbox_uri.len() == 0,
    ensures
        spec_action(spec_parse(line), book, ConfigStatusView::Loaded(config)) == ActionView::Fail(
            ErrorView::ConfigMissingValue(relay_uri_field()),
        ),
        spec_connection_after(
            spec_parse(line),
            Connection::Absent,
            ConfigStatusView::Loaded(config),
        ) == Connection::Absent,
        spec_book_after(spec_parse(line), book) == book,
{
    lemma_names_differ();
    let words = split_words(line);
    let args = words.skip(1);
    let start = empty_scan(no_names(), no_names());
    reveal_with_fuel(scan_from, 3);
    if words.len() == 1 {
        assert(args =~= Seq::<Seq<char>>::empty());
        assert(spec_scan(args, no_names(), no_names()) == Ok::<ScanView, ErrorView>(start));
    } else {
        let read = ScanView {
            values: start.values,
            flags: start.flags,
            positionals: start.positionals.push(words[1]),
        };
        assert(args =~= seq![words[1]]);
        assert(args.drop_first() =~= Seq::<Seq<char>>::empty());
        assert(spec_scan(args, no_names(), no_names()) == Ok::<ScanView, ErrorView>(read));
    }
    assert(spec_parse(line) is Ok);
    assert(spec_parse(line)->Ok_0 is Some);
    assert(spec_parse(line)->Ok_0->0 is Listen);
}

/// A line whose only word is `contacts`, on a book without contacts, is
/// answered with the report that the book is empty, and the book stays
/// empty.
pub proof fn lemma_contacts_line_on_empty_book(line: Seq<char>, config: ConfigStatusView)
    requires
        split_words(line) == seq!["contacts"@],
    ensures
        spec_action(spec_parse(line), Seq::empty(), config) == ActionView::Contacts(
            ContactsReportView::EmptyBook,
        ),
        spec_book_after(spec_parse(line), Seq::empty()) == Seq::<ContactView>::empty(),
{
    lemma_names_differ();
    let words = split_words(line);
    assert(words.skip(1) =~= Seq::<Seq<char>>::empty());
    assert(spec_parse(line) == Ok::<Option<CommandView>, ErrorView>(
        Some(CommandView::Contacts(ContactsCommandView::List)),
    ));
}

} // verus!
