use vstd::prelude::*;
use vstd::string::*;

use crate::models::{catalog_len, catalog_row, product_row, products, Product, ProductRow};
use crate::text::{chars_of, str_eq};

verus! {

/// What `str::to_lowercase` makes of a string: its lowercase equivalent under
/// Unicode's `Lowercase` property.
pub uninterp spec fn lowercase(s: Seq<char>) -> Seq<char>;

/// Calls `str::to_lowercase`. The contract only names the outcome, a function
/// of the characters of `s` alone.
#[verifier::external_body]
fn to_lowercase(s: &str) -> (low: String)
    ensures
        low@ == lowercase(s@),
{
    s.to_lowercase()
}

/// Whether `needle` occurs in `hay` as a run of consecutive characters.
pub open spec fn contains_text(hay: Seq<char>, needle: Seq<char>) -> bool {
    exists|i: int| 0 <= i <= hay.len() - needle.len() && #[trigger] hay.subrange(i, i + needle.len()) == needle
}

/// Whether `needle` occurs in `hay` as a run of consecutive characters.
fn chars_contain(hay: &Vec<char>, needle: &Vec<char>) -> (found: bool)
    ensures
        found == contains_text(hay@, needle@),
{
    let n = hay.len();
    let m = needle.len();
    if m > n {
        return false;
    }
    let mut i: usize = 0;
    while i <= n - m
        invariant
            n == hay@.len(),
            m == needle@.len(),
            m <= n,
            i <= n - m + 1,
            forall|k: int| 0 <= k < i ==> #[trigger] hay@.subrange(k, k + m) != needle@,
        decreases n - m + 1 - i,
    {
        let mut j: usize = 0;
        while j < m && hay[i + j] == needle[j]
            invariant
                n == hay@.len(),
                m == needle@.len(),
                i + m <= n,
                j <= m,
                forall|l: int| 0 <= l < j ==> hay@[i + l] == needle@[l],
            decreases m - j,
        {
            j = j + 1;
        }
        if j == m {
            assert(hay@.subrange(i as int, i + m) =~= needle@);
            return true;
        }
        assert(hay@.subrange(i as int, i + m)[j as int] != needle@[j as int]);
        i = i + 1;
    }
    false
}

/// The articles of the catalogue, as plain values.
pub open spec fn catalog_rows() -> Seq<ProductRow> {
    Seq::new(catalog_len(), |i: int| catalog_row(i))
}

/// The predicate that a search query sets on catalogue articles.
pub open spec fn query_filter(query: Seq<char>) -> spec_fn(ProductRow) -> bool {
    |r: ProductRow| matches_query(r, query)
}

/// Whether an article matches a search query: its search text, lowercased,
/// contains the query, lowercased.
pub open spec fn matches_query(
    row: ProductRow,
    query: Seq<char>,
) -> bool {
    contains_text(lowercase(row.2), lowercase(query))
}

/// The catalogue articles that match a search query, in catalogue order.
pub fn search_products(query: &str) -> (found: Vec<Product>)
    ensures
        found@.map_values(|p: Product| product_row(p)) == catalog_rows().filter(query_filter(query@)),
{
    let list = products();
    let low_query = to_lowercase(query);
    let needle = chars_of(low_query.as_str());
    let ghost pred = query_filter(query@);
    let ghost rows = catalog_rows();
    let mut found: Vec<Product> = Vec::new();
    let mut i: usize = 0;
    while i < list.len()
        invariant
            list@.len() == catalog_len(),
            forall|k: int| 0 <= k < catalog_len() ==> #[trigger] product_row(list@[k]) == catalog_row(k),
            needle@ == lowercase(query@),
            rows == catalog_rows(),
            pred == query_filter(query@),
            i <= list.len(),
            found@.map_values(|p: Product| product_row(p)) == rows.take(i as int).filter(pred),
        decreases list.len() - i,
    {
        let p = list[i];
        assert(product_row(list@[i as int]) == catalog_row(i as int));
        let low_search = to_lowercase(p.search);
        let hay = chars_of(low_search.as_str());
        let hit = chars_contain(&hay, &needle);
        let ghost before = found@;
        assert(rows.take(i + 1).drop_last() =~= rows.take(i as int));
        assert(rows.take(i + 1).last() == catalog_row(i as int));
        assert(catalog_row(i as int).2 == p.search@);
        assert(hay@ == lowercase(p.search@));
        assert(matches_query(catalog_row(i as int), query@) == hit);
        assert(pred(catalog_row(i as int)) == hit);
        assert(rows.take(i + 1).filter(pred) == if pred(rows.take(i + 1).last()) {
            rows.take(i as int).filter(pred).push(rows.take(i + 1).last())
        } else {
            rows.take(i as int).filter(pred)
        }) by {
            reveal(Seq::filter);
        }
        if hit {
            found.push(p);
            assert(found@.map_values(|p: Product| product_row(p)) =~= before.map_values(
                |p: Product| product_row(p),
            ).push(product_row(p)));
        }
        i = i + 1;
    }
    assert(rows.take(catalog_len() as int) =~= rows);
    found
}

/// The search ignores case: two queries with the same lowercase form show the
/// same articles.
pub proof fn lemma_search_ignores_case(q1: Seq<char>, q2: Seq<char>)
    requires
        lowercase(q1) == lowercase(q2),
    ensures
        catalog_rows().filter(query_filter(q1)) == catalog_rows().filter(query_filter(q2)),
{
    assert(query_filter(q1) =~= query_filter(q2));
}

/// A text is contained wherever it occurs, at the very start of the other
/// text as well as anywhere after.
pub proof fn lemma_contains_text_at_any_position(hay: Seq<char>, needle: Seq<char>, k: int)
    requires
        0 <= k,
        k + needle.len() <= hay.len(),
        hay.subrange(k, k + needle.len()) == needle,
    ensures
        contains_text(hay, needle),
{
    assert(hay.subrange(k, k + needle.len()) == needle);
}

/// Every catalogue article whose lowercased search text holds the lowercased
/// query, at any position (its start included), is among the search results.
pub proof fn lemma_search_finds_every_occurrence(query: Seq<char>, i: int, k: int)
    requires
        0 <= i < catalog_len(),
        0 <= k,
        k + lowercase(query).len() <= lowercase(catalog_row(i).2).len(),
        lowercase(catalog_row(i).2).subrange(k, k + lowercase(query).len()) == lowercase(query),
    ensures
        catalog_rows().filter(query_filter(query)).contains(catalog_row(i)),
{
    broadcast use Seq::lemma_filter_contains;
    lemma_contains_text_at_any_position(lowercase(catalog_row(i).2), lowercase(query), k);
    assert(catalog_rows()[i] == catalog_row(i));
    assert(query_filter(query)(catalog_rows()[i]));
}

/// Every search result is a catalogue article whose lowercased search text
/// holds the lowercased query at some position.
pub proof fn lemma_search_shows_only_matches(query: Seq<char>, r: ProductRow)
    requires
        catalog_rows().filter(query_filter(query)).contains(r),
    ensures
        exists|i: int| 0 <= i < catalog_len() && r == catalog_row(i),
        exists|k: int|
            0 <= k && k + lowercase(query).len() <= lowercase(r.2).len() && #[trigger] lowercase(r.2).subrange(
                k,
                k + lowercase(query).len(),
            ) == lowercase(query),
{
    broadcast use Seq::lemma_filter_contains_rev, Seq::lemma_filter_pred;
    let rows = catalog_rows();
    let found = rows.filter(query_filter(query));
    assert(rows.contains(r));
    let i = choose|i: int| 0 <= i < rows.len() && rows[i] == r;
    assert(r == catalog_row(i));
    let j = choose|j: int| 0 <= j < found.len() && found[j] == r;
    assert(query_filter(query)(found[j]));
    assert(contains_text(lowercase(r.2), lowercase(query)));
}

/// The favourites, each taken by its characters.
pub open spec fn title_views(list: Seq<String>) -> Seq<Seq<char>> {
    list.map_values(|s: String| s@)
}

/// Whether `title` is among the favourites.
pub fn is_favorite(favorites: &Vec<String>, title: &str) -> (found: bool)
    ensures
        found == title_views(favorites@).contains(title@),
{
    match first_position(favorites, title) {
        Some(k) => {
            assert(title_views(favorites@)[k as int] == title@);
            true
        },
        None => false,
    }
}

/// The position of the first favourite equal to `title`.
fn first_position(favorites: &Vec<String>, title: &str) -> (pos: Option<usize>)
    ensures
        match pos {
            Some(k) => k < favorites@.len() && favorites@[k as int]@ == title@ && forall|j: int|
                0 <= j < k ==> favorites@[j]@ != title@,
            None => !title_views(favorites@).contains(title@),
        },
{
    let mut i: usize = 0;
    while i < favorites.len()
        invariant
            i <= favorites.len(),
            forall|k: int| 0 <= k < i ==> favorites@[k]@ != title@,
        decreases favorites.len() - i,
    {
        if str_eq(favorites[i].as_str(), title) {
            return Some(i);
        }
        i = i + 1;
    }
    assert(!title_views(favorites@).contains(title@)) by {
        if title_views(favorites@).contains(title@) {
            let k = choose|k: int| 0 <= k < title_views(favorites@).len() && title_views(favorites@)[k] == title@;
            assert(favorites@[k]@ == title@);
        }
    }
    None
}

/// Adds a title to the favourites, or takes it out where it is there already:
/// its first occurrence is removed, else it is appended.
pub fn toggle_favorite(favorites: &mut Vec<String>, title: &str)
    ensures
        title_views(old(favorites)@).contains(title@) ==> exists|k: int|
            0 <= k < old(favorites)@.len() && old(favorites)@[k]@ == title@ && (forall|j: int|
                0 <= j < k ==> old(favorites)@[j]@ != title@) && title_views(final(favorites)@)
                == title_views(old(favorites)@).remove(k),
        !title_views(old(favorites)@).contains(title@) ==> title_views(final(favorites)@)
            == title_views(old(favorites)@).push(title@),
{
    match first_position(favorites, title) {
        Some(k) => {
            let ghost before = favorites@;
            assert(title_views(before)[k as int] == title@);
            favorites.remove(k);
            assert(title_views(favorites@) =~= title_views(before).remove(k as int));
        },
        None => {
            let ghost before = favorites@;
            favorites.push(String::from_str(title));
            assert(title_views(favorites@) =~= title_views(before).push(title@));
        },
    }
}

/// A title that is not among the favourites is there after one toggle, and a
/// second toggle brings the favourites back to what they were.
pub proof fn lemma_toggle_favorite_twice(favorites: Seq<Seq<char>>, title: Seq<char>)
    requires
        !favorites.contains(title),
    ensures
        favorites.push(title).contains(title),
        ({
            let once = favorites.push(title);
            let k = favorites.len() as int;
            &&& once[k] == title
            &&& forall|j: int| 0 <= j < k ==> once[j] != title
            &&& once.remove(k) == favorites
        }),
{
    let once = favorites.push(title);
    assert(once[favorites.len() as int] == title);
    assert forall|j: int| 0 <= j < favorites.len() implies once[j] != title by {
        if once[j] == title {
            assert(favorites[j] == title);
        }
    }
    assert(once.remove(favorites.len() as int) =~= favorites);
}

} // verus!
