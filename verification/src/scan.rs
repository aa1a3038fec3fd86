//! Sorting the words behind a command's name into options, flags and
//! positional arguments.

use vstd::prelude::*;
use vstd::string::*;
use crate::error::{ErrorView, Wallet713Error};
use crate::text::{chars_of, views_of};

verus! {

/// What the words behind a command's name hold. `values` and `flags` run
/// parallel to the names that the command declares.
pub struct Scan {
    /// The value given to each option that takes one, if it was given.
    pub values: Vec<Option<String>>,
    /// Whether each flag was given.
    pub flags: Vec<bool>,
    /// The words that belong to no option, in the order they came.
    pub positionals: Vec<String>,
}

/// A `Scan` with each text as a sequence of characters.
pub ghost struct ScanView {
    pub values: Seq<Option<Seq<char>>>,
    pub flags: Seq<bool>,
    pub positionals: Seq<Seq<char>>,
}

/// The text of an optional string.
pub open spec fn opt_view(o: Option<String>) -> Option<Seq<char>> {
    match o {
        Some(s) => Some(s@),
        None => None,
    }
}

impl View for Scan {
    type V = ScanView;

    open spec fn view(&self) -> ScanView {
        ScanView {
            values: Seq::new(self.values@.len(), |i: int| opt_view(self.values@[i])),
            flags: self.flags@,
            positionals: views_of(self.positionals@),
        }
    }
}

/// The view of a scan or the failure in its place.
pub open spec fn scan_result_view(r: Result<Scan, Wallet713Error>) -> Result<ScanView, ErrorView> {
    match r {
        Ok(s) => Ok(s@),
        Err(e) => Err(e@),
    }
}

/// Whether a word starts with two hyphens, as options and flags do.
pub open spec fn is_dashed(word: Seq<char>) -> bool {
    word.len() >= 2 && word[0] == '-' && word[1] == '-'
}

/// The first place at which `name` stands in `names`.
pub open spec fn position_of(names: Seq<Seq<char>>, name: Seq<char>) -> Option<int>
    decreases names.len(),
{
    if names.len() == 0 {
        None
    } else if names[0] == name {
        Some(0)
    } else {
        match position_of(names.drop_first(), name) {
            Some(k) => Some(k + 1),
            None => None,
        }
    }
}

/// The scan before any word was read: no value, no flag, no positional.
pub open spec fn empty_scan(value_names: Seq<Seq<char>>, flag_names: Seq<Seq<char>>) -> ScanView {
    ScanView {
        values: Seq::new(value_names.len(), |i: int| None),
        flags: Seq::new(flag_names.len(), |i: int| false),
        positionals: Seq::empty(),
    }
}

/// Reads `words` from the left into `acc`. A word that starts with two
/// hyphens must name an option, which takes the next word as its value, or a
/// flag; none may come twice. Every other word is a positional argument.
pub open spec fn scan_from(
    words: Seq<Seq<char>>,
    value_names: Seq<Seq<char>>,
    flag_names: Seq<Seq<char>>,
    acc: ScanView,
) -> Result<ScanView, ErrorView>
    decreases words.len(),
{
    if words.len() == 0 {
        Ok(acc)
    } else if !is_dashed(words[0]) {
        scan_from(
            words.drop_first(),
            value_names,
            flag_names,
            ScanView {
                values: acc.values,
                flags: acc.flags,
                positionals: acc.positionals.push(words[0]),
            },
        )
    } else {
        match position_of(value_names, words[0].skip(2)) {
            Some(k) => {
                if acc.values[k] is Some {
                    Err(ErrorView::RepeatedArgument(words[0]))
                } else if words.len() < 2 {
                    Err(ErrorView::MissingValue(words[0]))
                } else {
                    scan_from(
                        words.skip(2),
                        value_names,
                        flag_names,
                        ScanView {
                            values: acc.values.update(k, Some(words[1])),
                            flags: acc.flags,
                            positionals: acc.positionals,
                        },
                    )
                }
            },
            None => match position_of(flag_names, words[0].skip(2)) {
                Some(k) => {
                    if acc.flags[k] {
                        Err(ErrorView::RepeatedArgument(words[0]))
                    } else {
                        scan_from(
                            words.drop_first(),
                            value_names,
                            flag_names,
                            ScanView {
                                values: acc.values,
                                flags: acc.flags.update(k, true),
                                positionals: acc.positionals,
                            },
                        )
                    }
                },
                None => Err(ErrorView::UnexpectedArgument(words[0])),
            },
        }
    }
}

/// What `words` hold for a command that declares the options `value_names`
/// and the flags `flag_names`, or the first failure met from the left.
pub open spec fn spec_scan(
    words: Seq<Seq<char>>,
    value_names: Seq<Seq<char>>,
    flag_names: Seq<Seq<char>>,
) -> Result<ScanView, ErrorView> {
    scan_from(words, value_names, flag_names, empty_scan(value_names, flag_names))
}

/// A place that `position_of` gives lies inside `names` and holds `name`,
/// and `name` stands nowhere in front of it.
pub proof fn lemma_position_of(names: Seq<Seq<char>>, name: Seq<char>)
    ensures
        match position_of(names, name) {
            Some(k) => 0 <= k < names.len() && names[k] == name && forall|j: int|
                0 <= j < k ==> names[j] != name,
            None => forall|j: int| 0 <= j < names.len() ==> names[j] != name,
        },
    decreases names.len(),
{
    if names.len() > 0 && names[0] != name {
        let tail = names.drop_first();
        lemma_position_of(tail, name);
        match position_of(tail, name) {
            Some(k) => {
                assert forall|j: int| 0 <= j < k + 1 implies names[j] != name by {
                    if j > 0 {
                        assert(names[j] == tail[j - 1]);
                    }
                }
            },
            None => {
                assert forall|j: int| 0 <= j < names.len() implies names[j] != name by {
                    if j > 0 {
                        assert(names[j] == tail[j - 1]);
                    }
                }
            },
        }
    }
}

/// A copy of an optional string.
pub fn copy_opt(o: &Option<String>) -> (r: Option<String>)
    ensures
        opt_view(r) == opt_view(*o),
{
    match o {
        Some(s) => Some(s.clone()),
        None => None,
    }
}

/// The first place at which `name` stands in `names`, if it stands there.
pub fn find_name(names: &Vec<String>, name: &str) -> (r: Option<usize>)
    ensures
        match r {
            Some(k) => position_of(views_of(names@), name@) == Some(k as int),
            None => position_of(views_of(names@), name@) is None,
        },
{
    let ghost all = views_of(names@);
    proof {
        lemma_position_of(all, name@);
    }
    let wanted = name.to_owned();
    let mut i: usize = 0;
    while i < names.len()
        invariant
            i <= names.len(),
            all == views_of(names@),
            wanted@ == name@,
            forall|j: int| 0 <= j < i ==> all[j] != name@,
        decreases names.len() - i,
    {
        if names[i] == wanted {
            proof {
                assert(all[i as int] == name@);
                lemma_position_of(all, name@);
            }
            return Some(i);
        }
        i = i + 1;
    }
    None
}

/// Sorts the words from `words[from]` on into options, flags and positional
/// arguments.
pub fn scan(words: &Vec<String>, from: usize, value_names: &Vec<String>, flag_names: &Vec<String>) -> (r:
    Result<Scan, Wallet713Error>)
    requires
        from <= words.len(),
    ensures
        scan_result_view(r) == spec_scan(
            views_of(words@).skip(from as int),
            views_of(value_names@),
            views_of(flag_names@),
        ),
{
    let ghost all = views_of(words@);
    let ghost vn = views_of(value_names@);
    let ghost fnm = views_of(flag_names@);
    let mut values: Vec<Option<String>> = Vec::new();
    let mut k: usize = 0;
    while k < value_names.len()
        invariant
            k <= value_names.len(),
            values@.len() == k,
            forall|j: int| 0 <= j < k ==> values@[j] is None,
        decreases value_names.len() - k,
    {
        values.push(None);
        k = k + 1;
    }
    let mut flags: Vec<bool> = Vec::new();
    k = 0;
    while k < flag_names.len()
        invariant
            k <= flag_names.len(),
            flags@.len() == k,
            forall|j: int| 0 <= j < k ==> !flags@[j],
        decreases flag_names.len() - k,
    {
        flags.push(false);
        k = k + 1;
    }
    let mut acc = Scan { values, flags, positionals: Vec::new() };
    proof {
        assert(acc@.values =~= empty_scan(vn, fnm).values);
        assert(acc@.flags =~= empty_scan(vn, fnm).flags);
        assert(acc@.positionals =~= empty_scan(vn, fnm).positionals);
    }
    let n: usize = words.len();
    let mut i: usize = from;
    while i < n
        invariant
            n == words.len(),
            from <= i <= n,
            all == views_of(words@),
            vn == views_of(value_names@),
            fnm == views_of(flag_names@),
            acc.values@.len() == vn.len(),
            acc.flags@.len() == fnm.len(),
            spec_scan(all.skip(from as int), vn, fnm) == scan_from(all.skip(i as int), vn, fnm, acc@),
        decreases n - i,
    {
        let ghost rest = all.skip(i as int);
        let ghost before = acc@;
        proof {
            assert(rest[0] == words@[i as int]@);
            assert(rest.drop_first() =~= all.skip(i + 1));
        }
        let chars = chars_of(words[i].as_str());
        let len: usize = chars.len();
        if !(len >= 2 && chars[0] == '-' && chars[1] == '-') {
            acc.positionals.push(words[i].clone());
            proof {
                assert(acc@.positionals =~= before.positionals.push(rest[0]));
                assert(acc@.values =~= before.values);
            }
            i = i + 1;
        } else {
            let name = words[i].as_str().substring_char(2, len);
            proof {
                assert(name@ == rest[0].skip(2));
                lemma_position_of(vn, name@);
                lemma_position_of(fnm, name@);
            }
            match find_name(value_names, name) {
                Some(k) => {
                    if acc.values[k].is_some() {
                        return Err(Wallet713Error::RepeatedArgument(words[i].clone()));
                    }
                    if n - i < 2 {
                        return Err(Wallet713Error::MissingValue(words[i].clone()));
                    }
                    acc.values.set(k, Some(words[i + 1].clone()));
                    proof {
                        assert(rest[1] == words@[i + 1]@);
                        assert(rest.skip(2) =~= all.skip(i + 2));
                        assert(acc@.values =~= before.values.update(k as int, Some(rest[1])));
                    }
                    i = i + 2;
                },
                None => match find_name(flag_names, name) {
                    Some(k) => {
                        if acc.flags[k] {
                            return Err(Wallet713Error::RepeatedArgument(words[i].clone()));
                        }
                        acc.flags.set(k, true);
                        proof {
                            assert(acc@.values =~= before.values);
                        }
                        i = i + 1;
                    },
                    None => {
                        return Err(Wallet713Error::UnexpectedArgument(words[i].clone()));
                    },
                },
            }
        }
    }
    proof {
        assert(all.skip(n as int).len() == 0);
    }
    Ok(acc)
}

/// Reading words changes no length: a scan that succeeds has one value for
/// each option and one flag for each flag name that it started with.
proof fn lemma_scan_from_keeps_shape(
    words: Seq<Seq<char>>,
    value_names: Seq<Seq<char>>,
    flag_names: Seq<Seq<char>>,
    acc: ScanView,
)
    requires
        acc.values.len() == value_names.len(),
        acc.flags.len() == flag_names.len(),
    ensures
        match scan_from(words, value_names, flag_names, acc) {
            Ok(s) => s.values.len() == value_names.len() && s.flags.len() == flag_names.len(),
            Err(_) => true,
        },
    decreases words.len(),
{
    if words.len() == 0 {
    } else if !is_dashed(words[0]) {
        lemma_scan_from_keeps_shape(
            words.drop_first(),
            value_names,
            flag_names,
            ScanView {
                values: acc.values,
                flags: acc.flags,
                positionals: acc.positionals.push(words[0]),
            },
        );
    } else {
        lemma_position_of(value_names, words[0].skip(2));
        lemma_position_of(flag_names, words[0].skip(2));
        match position_of(value_names, words[0].skip(2)) {
            Some(k) => {
                if acc.values[k] is None && words.len() >= 2 {
                    lemma_scan_from_keeps_shape(
                        words.skip(2),
                        value_names,
                        flag_names,
                        ScanView {
                            values: acc.values.update(k, Some(words[1])),
                            flags: acc.flags,
                            positionals: acc.positionals,
                        },
                    );
                }
            },
            None => match position_of(flag_names, words[0].skip(2)) {
                Some(k) => {
                    if !acc.flags[k] {
                        lemma_scan_from_keeps_shape(
                            words.drop_first(),
                            value_names,
                            flag_names,
                            ScanView {
                                values: acc.values,
                                flags: acc.flags.update(k, true),
                                positionals: acc.positionals,
                            },
                        );
                    }
                },
                None => {},
            },
        }
    }
}

/// A scan that succeeds has one value for each option and one flag for each
/// flag name of the command.
pub proof fn lemma_scan_keeps_shape(
    words: Seq<Seq<char>>,
    value_names: Seq<Seq<char>>,
    flag_names: Seq<Seq<char>>,
)
    ensures
        match spec_scan(words, value_names, flag_names) {
            Ok(s) => s.values.len() == value_names.len() && s.flags.len() == flag_names.len(),
            Err(_) => true,
        },
{
    lemma_scan_from_keeps_shape(words, value_names, flag_names, empty_scan(value_names, flag_names));
}

} // verus!
