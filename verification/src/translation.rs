//! Translations: the families that pages form around the page that each
//! names as its original.

use crate::datum::{Datum, DatumView};
use crate::error::{SiteError, SiteErrorView};
use crate::metadata::lookup;
use crate::page::{places, Page, PageReference, PageView};
use crate::text::{components, rooted, rooted_path, same_text, split_path};
use vstd::prelude::*;

verus! {

/// The metadata key under which a page names the page that it translates.
pub const MAGIC_META_ORIGINAL: &'static str = "original";

/// The names of the directory of the path made of `names`.
pub open spec fn parent_names(names: Seq<Seq<char>>) -> Seq<Seq<char>> {
    if names.len() == 0 {
        names
    } else {
        names.drop_last()
    }
}

/// The URL that `reference` means on a page at `url`: the reference as it
/// stands where it begins with `/`, and else the reference as seen from the
/// directory of the page. The names `.` and `..` are names like any other:
/// they are not taken to mean a directory or its parent.
pub open spec fn resolve(reference: Seq<char>, url: Seq<char>) -> Seq<char> {
    if reference.len() > 0 && reference[0] == '/' {
        reference
    } else {
        rooted(parent_names(components(url)) + components(reference))
    }
}

/// Whether `target` means `page`: it is the URL of the page.
pub open spec fn answers_to(page: PageView, target: Seq<char>) -> bool {
    page.url == target
}

/// The place of the first page among `pages` that `target` means.
pub open spec fn first_answer(pages: Seq<PageView>, target: Seq<char>) -> Option<int>
    decreases pages.len(),
{
    if pages.len() == 0 {
        None
    } else {
        match first_answer(pages.drop_last(), target) {
            Some(at) => Some(at),
            None => if answers_to(pages.last(), target) {
                Some(pages.len() - 1)
            } else {
                None
            },
        }
    }
}

/// The first answer is a page that the target means, and no page before it is.
pub proof fn lemma_first_answer(pages: Seq<PageView>, target: Seq<char>)
    ensures
        match first_answer(pages, target) {
            Some(at) => {
                &&& 0 <= at < pages.len()
                &&& answers_to(pages[at], target)
                &&& forall|j: int| 0 <= j < at ==> !answers_to(#[trigger] pages[j], target)
            },
            None => forall|j: int| 0 <= j < pages.len() ==> !answers_to(#[trigger] pages[j], target),
        },
    decreases pages.len(),
{
    if pages.len() > 0 {
        let init = pages.drop_last();
        lemma_first_answer(init, target);
        assert(forall|j: int| 0 <= j < init.len() ==> init[j] == pages[j]);
    }
}

/// The place of the page that the page at `at` names as its original, if it
/// names one.
pub open spec fn origin_of(pages: Seq<PageView>, at: int) -> Result<Option<int>, SiteErrorView> {
    match lookup(pages[at].metadata, MAGIC_META_ORIGINAL@) {
        None => Ok(None),
        Some(DatumView::String(reference)) => match first_answer(
            pages,
            resolve(reference, pages[at].url),
        ) {
            Some(origin) => Ok(Some(origin)),
            None => Err(SiteErrorView::BrokenReference { path: pages[at].path, reference }),
        },
        Some(_) => Err(SiteErrorView::TypeMismatch { key: MAGIC_META_ORIGINAL@ }),
    }
}

/// The origins of the first `count` pages, or the error of the first page
/// that has one.
pub open spec fn origins_of(pages: Seq<PageView>, count: int) -> Result<
    Seq<Option<int>>,
    SiteErrorView,
>
    decreases count,
{
    if count <= 0 {
        Ok(Seq::empty())
    } else {
        match origins_of(pages, count - 1) {
            Err(e) => Err(e),
            Ok(before) => match origin_of(pages, count - 1) {
                Err(e) => Err(e),
                Ok(origin) => Ok(before.push(origin)),
            },
        }
    }
}

/// Whether each origin is a place in the list.
pub open spec fn origins_in_range(origins: Seq<Option<int>>) -> bool {
    forall|p: int|
        0 <= p < origins.len() ==> (#[trigger] origins[p] matches Some(o) ==> 0 <= o
            < origins.len())
}

/// Whether some page names the page at `at` as its original.
pub open spec fn is_original(origins: Seq<Option<int>>, at: int) -> bool {
    exists|p: int| 0 <= p < origins.len() && #[trigger] origins[p] == Some(at)
}

/// Whether the page at `p` belongs to the family of the page at `origin`: it
/// is that page, or names it as its original.
pub open spec fn in_family(origins: Seq<Option<int>>, origin: int, p: int) -> bool {
    p == origin || origins[p] == Some(origin)
}

/// The family of the page at `origin` among the first `count` pages, in
/// rising order.
pub open spec fn family_of(origins: Seq<Option<int>>, origin: int, count: int) -> Seq<int>
    decreases count,
{
    if count <= 0 {
        Seq::empty()
    } else {
        let before = family_of(origins, origin, count - 1);
        if in_family(origins, origin, count - 1) {
            before.push(count - 1)
        } else {
            before
        }
    }
}

/// The page at which the family of the page at `at` gathers: its original
/// where it names one, and else the page itself.
pub open spec fn root_of(origins: Seq<Option<int>>, at: int) -> int {
    match origins[at] {
        Some(origin) => origin,
        None => at,
    }
}

/// The translations of the page at `at`: the family that gathers at its
/// root, the page itself among them, or nothing where no page names that
/// root as its original.
pub open spec fn translations_for(origins: Seq<Option<int>>, at: int) -> Seq<int> {
    let root = root_of(origins, at);
    if is_original(origins, root) {
        family_of(origins, root, origins.len() as int)
    } else {
        Seq::empty()
    }
}

/// Whether no translation is itself the original of another page: whatever
/// is named as an original names no original but, perhaps, itself.
pub open spec fn chain_free(origins: Seq<Option<int>>) -> bool {
    forall|p: int|
        0 <= p < origins.len() ==> (#[trigger] origins[p] matches Some(o) ==> (origins[o] is None
            || origins[o] == Some(o)))
}

/// A place is in a family exactly when the page there belongs to it.
pub proof fn lemma_family(origins: Seq<Option<int>>, origin: int, count: int)
    requires
        0 <= count <= origins.len(),
    ensures
        forall|p: int|
            #![trigger family_of(origins, origin, count).contains(p)]
            family_of(origins, origin, count).contains(p) <==> (0 <= p < count && in_family(
                origins,
                origin,
                p,
            )),
    decreases count,
{
    let family = family_of(origins, origin, count);
    if count > 0 {
        let before = family_of(origins, origin, count - 1);
        lemma_family(origins, origin, count - 1);
        assert forall|p: int| family.contains(p) <==> (0 <= p < count && in_family(
            origins,
            origin,
            p,
        )) by {
            if in_family(origins, origin, count - 1) {
                if family.contains(p) {
                    let k = choose|k: int| 0 <= k < family.len() && family[k] == p;
                    if k < before.len() {
                        assert(before.contains(p));
                    }
                }
                if 0 <= p < count && in_family(origins, origin, p) {
                    if p < count - 1 {
                        assert(before.contains(p));
                        let k = choose|k: int| 0 <= k < before.len() && before[k] == p;
                        assert(family[k] == p);
                    } else {
                        assert(family[family.len() - 1] == p);
                    }
                }
            }
        }
    }
}

/// All pages that share a family have the same list of translations: where
/// the page at `b` is among the translations of the page at `a`, their lists
/// are equal, item by item.
///
/// This holds where no translation is itself the original of another page.
pub proof fn lemma_translations_agree(origins: Seq<Option<int>>, a: int, b: int)
    requires
        0 <= a < origins.len(),
        origins_in_range(origins),
        chain_free(origins),
        translations_for(origins, a).contains(b),
    ensures
        0 <= b < origins.len(),
        translations_for(origins, b) == translations_for(origins, a),
{
    // The page at `b` belongs to the family that gathers at the root of `a`:
    // it is that root, which names nothing but perhaps itself, or it names
    // that root. Either way its own family gathers there too.
    lemma_family(origins, root_of(origins, a), origins.len() as int);
}

/// Every page with translations is among them.
pub proof fn lemma_translations_hold_self(origins: Seq<Option<int>>, at: int)
    requires
        0 <= at < origins.len(),
        origins_in_range(origins),
        origins[at] is Some || is_original(origins, at),
    ensures
        translations_for(origins, at).contains(at),
        translations_for(origins, at).contains(root_of(origins, at)),
{
    lemma_family(origins, root_of(origins, at), origins.len() as int);
}

/// Once a page has failed, the failure is that of the whole list.
pub proof fn lemma_origins_error_stays(pages: Seq<PageView>, count: int, more: int)
    requires
        0 <= count <= more,
        origins_of(pages, count) is Err,
    ensures
        origins_of(pages, more) == origins_of(pages, count),
    decreases more - count,
{
    if count < more {
        lemma_origins_error_stays(pages, count, more - 1);
    }
}

/// The URL that `reference` means on a page at `url`.
pub fn resolve_reference(reference: &str, url: &str) -> (target: String)
    ensures
        target@ == resolve(reference@, url@),
{
    if !reference.is_empty() && reference.get_char(0) == '/' {
        return reference.to_owned();
    }
    let mut names = split_path(url);
    if names.len() > 0 {
        let ghost all = names.deep_view();
        names.pop();
        assert(names.deep_view() =~= all.drop_last());
    }
    let ghost parent = names.deep_view();
    let mut rest = split_path(reference);
    let ghost tail = rest.deep_view();
    names.append(&mut rest);
    proof {
        assert(names.deep_view() =~= parent + tail);
        assert(names.deep_view().subrange(0, names.len() as int) =~= names.deep_view());
    }
    rooted_path(&names, 0, names.len())
}

/// The first page among `pages` that `target` means.
pub fn find_page(pages: &Vec<Page>, target: &str) -> (r: Option<PageReference>)
    ensures
        match r {
            Some(found) => first_answer(pages.deep_view(), target@) == Some(found.0 as int),
            None => first_answer(pages.deep_view(), target@) is None,
        },
{
    let mut found: Option<PageReference> = None;
    let mut i: usize = 0;
    while i < pages.len()
        invariant
            i <= pages.len(),
            match found {
                Some(at) => first_answer(pages.deep_view().take(i as int), target@) == Some(
                    at.0 as int,
                ),
                None => first_answer(pages.deep_view().take(i as int), target@) is None,
            },
        decreases pages.len() - i,
    {
        proof {
            let wider = pages.deep_view().take(i + 1);
            assert(wider.drop_last() =~= pages.deep_view().take(i as int));
        }
        if found.is_none() && same_text(pages[i].url.as_str(), target) {
            found = Some(PageReference(i));
        }
        i += 1;
    }
    proof {
        assert(pages.deep_view().take(i as int) =~= pages.deep_view());
    }
    found
}

/// The places that `origins` name.
pub open spec fn origin_places(origins: Seq<Option<usize>>) -> Seq<Option<int>> {
    Seq::new(
        origins.len(),
        |i: int|
            match origins[i] {
                Some(o) => Some(o as int),
                None => None,
            },
    )
}

/// For each page the page that it names as its original, if it names one.
/// The first page whose `original` is not a text, or names no page, fails
/// the whole.
pub fn find_origins(pages: &Vec<Page>) -> (r: Result<Vec<Option<usize>>, SiteError>)
    ensures
        match r {
            Ok(origins) => origins_of(pages.deep_view(), pages.len() as int) == Ok::<
                Seq<Option<int>>,
                SiteErrorView,
            >(origin_places(origins@)) && origins.len() == pages.len() && origins_in_range(
                origin_places(origins@),
            ),
            Err(e) => origins_of(pages.deep_view(), pages.len() as int) == Err::<
                Seq<Option<int>>,
                SiteErrorView,
            >(e@),
        },
{
    let mut origins: Vec<Option<usize>> = Vec::new();
    let mut i: usize = 0;
    proof {
        assert(origin_places(origins@) =~= Seq::<Option<int>>::empty());
    }
    while i < pages.len()
        invariant
            i <= pages.len(),
            origins.len() == i,
            origins_of(pages.deep_view(), i as int) == Ok::<Seq<Option<int>>, SiteErrorView>(
                origin_places(origins@),
            ),
            forall|p: int|
                0 <= p < i ==> (#[trigger] origins@[p] matches Some(o) ==> o < pages.len()),
        decreases pages.len() - i,
    {
        let page = &pages[i];
        let ghost before = origin_places(origins@);
        match page.metadata.get(MAGIC_META_ORIGINAL) {
            None => {
                origins.push(None);
                proof {
                    assert(origin_places(origins@) =~= before.push(None));
                }
            },
            Some(Datum::String(reference)) => {
                let target = resolve_reference(reference.as_str(), page.url.as_str());
                proof {
                    lemma_first_answer(pages.deep_view(), target@);
                }
                match find_page(pages, target.as_str()) {
                    Some(origin) => {
                        origins.push(Some(origin.0));
                        proof {
                            assert(origin_places(origins@) =~= before.push(Some(origin.0 as int)));
                        }
                    },
                    None => {
                        proof {
                            lemma_origins_error_stays(
                                pages.deep_view(),
                                i + 1,
                                pages.len() as int,
                            );
                        }
                        return Err(
                            SiteError::BrokenReference {
                                path: page.path.clone(),
                                reference: reference.clone(),
                            },
                        );
                    },
                }
            },
            Some(_) => {
                proof {
                    lemma_origins_error_stays(pages.deep_view(), i + 1, pages.len() as int);
                }
                return Err(SiteError::TypeMismatch { key: MAGIC_META_ORIGINAL.to_owned() });
            },
        }
        i += 1;
    }
    proof {
        let places = origin_places(origins@);
        assert forall|p: int| 0 <= p < places.len() implies (#[trigger] places[p] matches Some(
            o,
        ) ==> 0 <= o < places.len()) by {
            assert(origins@[p] is Some ==> places[p] == Some(origins@[p]->0 as int));
        }
    }
    Ok(origins)
}

/// The translations of the page at `at`.
pub fn translations_of(origins: &Vec<Option<usize>>, at: usize) -> (r: Vec<PageReference>)
    requires
        at < origins.len(),
        origins_in_range(origin_places(origins@)),
    ensures
        places(r@) == translations_for(origin_places(origins@), at as int),
{
    let ghost view = origin_places(origins@);
    let root = match origins[at] {
        Some(origin) => origin,
        None => at,
    };
    let mut family: Vec<PageReference> = Vec::new();
    let mut named = false;
    let mut p: usize = 0;
    while p < origins.len()
        invariant
            p <= origins.len(),
            view == origin_places(origins@),
            places(family@) == family_of(view, root as int, p as int),
            named <==> exists|q: int| 0 <= q < p && #[trigger] view[q] == Some(root as int),
        decreases origins.len() - p,
    {
        let names_root = match origins[p] {
            Some(origin) => origin == root,
            None => false,
        };
        assert(names_root <==> view[p as int] == Some(root as int));
        if names_root {
            named = true;
        }
        if p == root || names_root {
            family.push(PageReference(p));
        }
        p += 1;
    }
    if named {
        family
    } else {
        Vec::new()
    }
}

} // verus!
