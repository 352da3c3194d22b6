//! Groups: for each metadata key the pages that hold it.

use crate::metadata::{has_key, key_list};
use crate::page::{places, Page, PageReference, PageView};
use crate::text::{
    lemma_precedes_irreflexive, lemma_precedes_total, lemma_precedes_transitive, precedes,
    same_text, text_precedes,
};
use vstd::prelude::*;

verus! {

/// The pages that carry one metadata key.
#[derive(Debug)]
pub struct Group {
    /// The metadata key.
    pub name: String,
    /// The pages whose metadata holds the key, in the order of the site.
    pub pages: Vec<PageReference>,
}

/// The mathematical content of a [`Group`].
pub struct GroupView {
    pub name: Seq<char>,
    pub pages: Seq<int>,
}

impl View for Group {
    type V = GroupView;

    open spec fn view(&self) -> GroupView {
        GroupView { name: self.name@, pages: places(self.pages@) }
    }
}

impl DeepView for Group {
    type V = GroupView;

    open spec fn deep_view(&self) -> GroupView {
        self@
    }
}

impl Group {
    /// The group of the key `name`, with the members `pages`.
    pub fn new(name: &str, pages: Vec<PageReference>) -> (g: Group)
        ensures
            g@ == (GroupView { name: name@, pages: places(pages@) }),
    {
        Group { name: name.to_owned(), pages }
    }
}

/// The places of the pages among `pages` whose metadata holds `key`, in
/// rising order.
pub open spec fn members_of(pages: Seq<PageView>, key: Seq<char>) -> Seq<int>
    decreases pages.len(),
{
    if pages.len() == 0 {
        Seq::empty()
    } else {
        let before = members_of(pages.drop_last(), key);
        if has_key(pages.last().metadata, key) {
            before.push(pages.len() - 1)
        } else {
            before
        }
    }
}

/// The members of a group are pages that hold its key: each is a place in the
/// list of pages, they rise, and a place is among them exactly when the page
/// there holds the key. So every page that holds the key is a member exactly
/// once, and no other page is.
pub proof fn lemma_members_hold_key(pages: Seq<PageView>, key: Seq<char>)
    ensures
        forall|k: int|
            0 <= k < members_of(pages, key).len() ==> 0 <= #[trigger] members_of(pages, key)[k]
                < pages.len(),
        forall|a: int, b: int|
            0 <= a < b < members_of(pages, key).len() ==> members_of(pages, key)[a] < members_of(
                pages,
                key,
            )[b],
        forall|i: int|
            0 <= i < pages.len() ==> (members_of(pages, key).contains(i) <==> has_key(
                #[trigger] pages[i].metadata,
                key,
            )),
        forall|i: int| members_of(pages, key).contains(i) ==> 0 <= i < pages.len(),
    decreases pages.len(),
{
    let members = members_of(pages, key);
    if pages.len() > 0 {
        let init = pages.drop_last();
        let before = members_of(init, key);
        let last = pages.len() - 1;
        lemma_members_hold_key(init, key);
        assert forall|i: int| 0 <= i < pages.len() implies (members.contains(i) <==> has_key(
            #[trigger] pages[i].metadata,
            key,
        )) by {
            if i < last {
                assert(init[i] == pages[i]);
                if before.contains(i) {
                    let k = choose|k: int| 0 <= k < before.len() && before[k] == i;
                    assert(members[k] == i);
                }
            } else {
                if has_key(pages[last].metadata, key) {
                    assert(members[before.len() as int] == last);
                } else if members.contains(i) {
                }
            }
        }
    }
}

/// The pages among `pages` whose metadata holds the key `name`.
pub fn pages_by_metadata_key(pages: &Vec<Page>, name: &str) -> (members: Vec<PageReference>)
    ensures
        places(members@) == members_of(pages.deep_view(), name@),
{
    let mut members: Vec<PageReference> = Vec::new();
    let mut i: usize = 0;
    while i < pages.len()
        invariant
            i <= pages.len(),
            places(members@) == members_of(pages.deep_view().take(i as int), name@),
        decreases pages.len() - i,
    {
        proof {
            let wider = pages.deep_view().take(i + 1);
            assert(wider.drop_last() =~= pages.deep_view().take(i as int));
        }
        if pages[i].metadata.contains_key(name) {
            members.push(PageReference(i));
        }
        i += 1;
    }
    proof {
        assert(pages.deep_view().take(i as int) =~= pages.deep_view());
    }
    members
}

/// Whether `names` rise strictly in the order of a dictionary, so that none
/// occurs twice.
pub open spec fn rising(names: Seq<Seq<char>>) -> bool {
    forall|a: int, b: int| 0 <= a < b < names.len() ==> precedes(names[a], names[b])
}

/// A rising list holds no name twice.
pub proof fn lemma_rising_has_no_repeats(names: Seq<Seq<char>>, a: int, b: int)
    requires
        rising(names),
        0 <= a < names.len(),
        0 <= b < names.len(),
        a != b,
    ensures
        names[a] != names[b],
{
    lemma_precedes_irreflexive(names[a]);
}

/// Whether some page among `pages` holds `key`.
pub open spec fn is_held(pages: Seq<PageView>, key: Seq<char>) -> bool {
    exists|i: int| 0 <= i < pages.len() && has_key(#[trigger] pages[i].metadata, key)
}

/// Whether `names` is the index of the keys of `pages`: every key that some
/// page holds and nothing else, in the order of a dictionary, each once.
pub open spec fn is_key_index(names: Seq<Seq<char>>, pages: Seq<PageView>) -> bool {
    &&& rising(names)
    &&& forall|key: Seq<char>| #[trigger] names.contains(key) <==> is_held(pages, key)
}

/// Puts `key` into the rising list `names`, unless it is there.
pub fn insert_key(names: &mut Vec<String>, key: &str)
    requires
        rising(old(names).deep_view()),
    ensures
        rising(final(names).deep_view()),
        forall|name: Seq<char>|
            #![trigger final(names).deep_view().contains(name)]
            final(names).deep_view().contains(name) <==> (old(names).deep_view().contains(name)
                || name == key@),
{
    let ghost before = names.deep_view();
    let mut at: usize = 0;
    while at < names.len() && text_precedes(names[at].as_str(), key)
        invariant
            at <= names.len(),
            names.deep_view() == before,
            rising(before),
            forall|k: int| 0 <= k < at ==> precedes(#[trigger] before[k], key@),
        decreases names.len() - at,
    {
        at += 1;
    }
    if at < names.len() && same_text(names[at].as_str(), key) {
        proof {
            assert(before[at as int] == key@);
        }
        return ;
    }
    names.insert(at, key.to_owned());
    proof {
        let after = names.deep_view();
        assert(forall|k: int| 0 <= k < at ==> after[k] == before[k]);
        if at < before.len() {
            lemma_precedes_total(before[at as int], key@);
        }
        assert forall|a: int, b: int| 0 <= a < b < after.len() implies precedes(
            after[a],
            after[b],
        ) by {
            if b > at {
                if a < at {
                    assert(precedes(before[a], before[b - 1]));
                } else if a > at {
                    assert(precedes(before[a - 1], before[b - 1]));
                } else if b - 1 > at {
                    lemma_precedes_transitive(key@, before[at as int], before[b - 1]);
                }
            }
        }
        assert forall|name: Seq<char>| after.contains(name) <==> (before.contains(name) || name
            == key@) by {
            if after.contains(name) {
                let k = choose|k: int| 0 <= k < after.len() && after[k] == name;
                if k > at {
                    assert(before[k - 1] == name);
                }
            }
            if before.contains(name) {
                let k = choose|k: int| 0 <= k < before.len() && before[k] == name;
                if k >= at {
                    assert(after[k + 1] == name);
                }
            }
            if name == key@ {
                assert(after[at as int] == name);
            }
        }
    }
}

/// The index of the keys of `pages`.
pub fn key_index(pages: &Vec<Page>) -> (names: Vec<String>)
    ensures
        is_key_index(names.deep_view(), pages.deep_view()),
{
    let mut names: Vec<String> = Vec::new();
    let mut i: usize = 0;
    while i < pages.len()
        invariant
            i <= pages.len(),
            is_key_index(names.deep_view(), pages.deep_view().take(i as int)),
        decreases pages.len() - i,
    {
        let keys = pages[i].metadata.keys();
        let ghost done = pages.deep_view().take(i as int);
        let ghost entries = pages@[i as int]@.metadata;
        let mut k: usize = 0;
        while k < keys.len()
            invariant
                k <= keys.len(),
                i < pages.len(),
                done == pages.deep_view().take(i as int),
                entries == pages@[i as int]@.metadata,
                keys.deep_view() == key_list(entries),
                rising(names.deep_view()),
                forall|key: Seq<char>|
                    #![trigger names.deep_view().contains(key)]
                    names.deep_view().contains(key) <==> (is_held(done, key) || keys.deep_view().take(
                        k as int,
                    ).contains(key)),
            decreases keys.len() - k,
        {
            let ghost wider = keys.deep_view().take(k + 1);
            insert_key(&mut names, keys[k].as_str());
            proof {
                let added = keys@[k as int]@;
                assert forall|key: Seq<char>| names.deep_view().contains(key) <==> (is_held(
                    done,
                    key,
                ) || wider.contains(key)) by {
                    if key == added {
                        assert(wider[k as int] == key);
                    }
                }
            }
            k += 1;
        }
        proof {
            let wider = pages.deep_view().take(i + 1);
            assert(keys.deep_view().take(k as int) =~= key_list(entries));
            assert forall|key: Seq<char>| names.deep_view().contains(key) <==> is_held(
                wider,
                key,
            ) by {
                lemma_key_list_holds(entries, key);
                if key_list(entries).contains(key) {
                    assert(wider[i as int].metadata == entries);
                }
            }
        }
        i += 1;
    }
    proof {
        assert(pages.deep_view().take(i as int) =~= pages.deep_view());
    }
    names
}

/// A key is listed among the keys of `entries` exactly when `entries` hold it.
pub proof fn lemma_key_list_holds(entries: crate::metadata::Entries, key: Seq<char>)
    ensures
        key_list(entries).contains(key) <==> has_key(entries, key),
{
    crate::metadata::lemma_has_key(entries, key);
    if has_key(entries, key) {
        let j = choose|j: int| 0 <= j < entries.len() && (#[trigger] entries[j]).0 == key;
        assert(key_list(entries)[j] == key);
    }
}

} // verus!
