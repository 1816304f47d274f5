//! The entries of the reading list, built from the bookmarks of the service.
use vstd::prelude::*;
use crate::numeral::{lemma_signed_decimal_reads_back, parsed_i64, signed_decimal, signed_decimal_text};

verus! {

broadcast use vstd::std_specs::vec::group_vec_axioms, vstd::seq::group_seq_axioms;

/// One entry of the reading list.
#[derive(Debug)]
pub struct Article {
    pub title: String,
    pub uri: String,
    pub item_id: String,
}

/// What an entry of the list tells its owner.
#[derive(Debug)]
pub enum ArticleOutput {
    /// The entry was chosen: its address and its identifier.
    ArticleSelected(String, String),
}

/// What an entry of the list is told.
#[derive(Debug)]
pub enum ArticleInput {
    ArticleSelected,
}

/// A saved bookmark, as far as the reading list reads it.
#[derive(Debug)]
pub struct InstapaperBookmark {
    pub bookmark_id: i64,
    pub title: String,
    pub url: String,
    pub hash: String,
    pub description: String,
    pub starred: String,
}

/// The mathematical value of an `Article`: title, address, identifier.
pub struct ArticleView {
    pub title: Seq<char>,
    pub uri: Seq<char>,
    pub item_id: Seq<char>,
}

impl View for Article {
    type V = ArticleView;

    open spec fn view(&self) -> ArticleView {
        ArticleView { title: self.title@, uri: self.uri@, item_id: self.item_id@ }
    }
}

/// The entry for a bookmark: titled by its address when it has no title, and
/// identified by its id in decimal.
pub open spec fn article_of(b: InstapaperBookmark) -> ArticleView {
    ArticleView {
        title: if b.title@.len() == 0 {
            b.url@
        } else {
            b.title@
        },
        uri: b.url@,
        item_id: signed_decimal(b.bookmark_id as int),
    }
}

/// Where a bookmark with id `k` goes in a list sorted newest first: before the
/// first bookmark with a smaller id, so after those with an equal one.
pub open spec fn insert_position(s: Seq<InstapaperBookmark>, k: i64) -> int
    decreases s.len(),
{
    if s.len() == 0 {
        0
    } else if s[0].bookmark_id < k {
        0
    } else {
        1 + insert_position(s.drop_first(), k)
    }
}

/// `bs` sorted by id, largest (newest) first; bookmarks with equal ids keep
/// their order.
pub open spec fn newest_first(bs: Seq<InstapaperBookmark>) -> Seq<InstapaperBookmark>
    decreases bs.len(),
{
    if bs.len() == 0 {
        seq![]
    } else {
        let s = newest_first(bs.drop_last());
        s.insert(insert_position(s, bs.last().bookmark_id), bs.last())
    }
}

proof fn lemma_insert_position_bounds(s: Seq<InstapaperBookmark>, k: i64)
    ensures
        0 <= insert_position(s, k) <= s.len(),
    decreases s.len(),
{
    if s.len() > 0 {
        lemma_insert_position_bounds(s.drop_first(), k);
    }
}

proof fn lemma_newest_first_len(bs: Seq<InstapaperBookmark>)
    ensures
        newest_first(bs).len() == bs.len(),
    decreases bs.len(),
{
    if bs.len() > 0 {
        lemma_newest_first_len(bs.drop_last());
        lemma_insert_position_bounds(newest_first(bs.drop_last()), bs.last().bookmark_id);
    }
}

/// Whether `s` is sorted by id, largest first.
pub open spec fn sorted_newest_first(s: Seq<InstapaperBookmark>) -> bool {
    forall|i: int, j: int| 0 <= i < j < s.len() ==> s[i].bookmark_id >= s[j].bookmark_id
}

proof fn lemma_insert_position_splits(s: Seq<InstapaperBookmark>, k: i64)
    ensures
        forall|i: int| 0 <= i < insert_position(s, k) ==> s[i].bookmark_id >= k,
        insert_position(s, k) < s.len() ==> s[insert_position(s, k)].bookmark_id < k,
    decreases s.len(),
{
    lemma_insert_position_bounds(s, k);
    if s.len() > 0 && s[0].bookmark_id >= k {
        lemma_insert_position_splits(s.drop_first(), k);
        assert forall|i: int| 0 <= i < insert_position(s, k) implies s[i].bookmark_id >= k by {
            if i > 0 {
                assert(s[i] == s.drop_first()[i - 1]);
            }
        }
        let p = insert_position(s, k);
        assert(p == 1 + insert_position(s.drop_first(), k));
        lemma_insert_position_bounds(s.drop_first(), k);
        if p < s.len() {
            assert(s[p] == s.drop_first()[p - 1]);
        }
    }
}

/// The reading list comes out newest first.
pub proof fn lemma_newest_first_sorted(bs: Seq<InstapaperBookmark>)
    ensures
        sorted_newest_first(newest_first(bs)),
    decreases bs.len(),
{
    if bs.len() > 0 {
        lemma_newest_first_sorted(bs.drop_last());
        let s = newest_first(bs.drop_last());
        let x = bs.last();
        let p = insert_position(s, x.bookmark_id);
        lemma_insert_position_bounds(s, x.bookmark_id);
        lemma_insert_position_splits(s, x.bookmark_id);
        let t = s.insert(p, x);
        assert forall|i: int, j: int| 0 <= i < j < t.len() implies t[i].bookmark_id
            >= t[j].bookmark_id by {
            if j < p {
            } else if j == p {
                assert(t[i] == s[i]);
            } else if i < p {
                assert(t[i] == s[i]);
                assert(t[j] == s[j - 1]);
                if p < s.len() {
                    assert(s[p].bookmark_id < x.bookmark_id);
                }
            } else if i == p {
                assert(t[j] == s[j - 1]);
                assert(s[p].bookmark_id < x.bookmark_id);
                assert(s[p].bookmark_id >= s[j - 1].bookmark_id || j - 1 == p);
            } else {
                assert(t[i] == s[i - 1]);
                assert(t[j] == s[j - 1]);
            }
        }
    }
}

/// The reading list holds each bookmark exactly as often as it was given.
pub proof fn lemma_newest_first_permutes(bs: Seq<InstapaperBookmark>)
    ensures
        newest_first(bs).to_multiset() == bs.to_multiset(),
    decreases bs.len(),
{
    broadcast use vstd::seq_lib::group_to_multiset_ensures;

    if bs.len() == 0 {
        assert(newest_first(bs) == bs);
    } else {
        lemma_newest_first_permutes(bs.drop_last());
        let s = newest_first(bs.drop_last());
        lemma_insert_position_bounds(s, bs.last().bookmark_id);
        assert(bs == bs.drop_last().push(bs.last()));
    }
}

/// Each entry's identifier reads back as its bookmark's id, so ordering by
/// id is ordering by the value the identifier writes.
pub proof fn lemma_item_id_reads_back(b: InstapaperBookmark)
    ensures
        parsed_i64(article_of(b).item_id) == Some(b.bookmark_id),
{
    lemma_signed_decimal_reads_back(b.bookmark_id);
}

impl Article {
    /// An entry from its title, address and identifier.
    pub fn new(title: String, uri: String, item_id: String) -> (r: Article)
        ensures
            r.title == title,
            r.uri == uri,
            r.item_id == item_id,
    {
        Article { title, uri, item_id }
    }

    /// The entry's answer to being chosen: its address and its identifier.
    pub fn update(&self, msg: ArticleInput) -> (r: ArticleOutput)
        ensures
            r matches ArticleOutput::ArticleSelected(uri, id) && uri@ == self.uri@ && id@
                == self.item_id@,
    {
        match msg {
            ArticleInput::ArticleSelected => ArticleOutput::ArticleSelected(
                self.uri.clone(),
                self.item_id.clone(),
            ),
        }
    }
}

/// The entry for one bookmark.
fn article_from(b: &InstapaperBookmark) -> (r: Article)
    ensures
        r@ == article_of(*b),
{
    let title = if b.title.as_str().is_empty() {
        b.url.clone()
    } else {
        b.title.clone()
    };
    Article { title, uri: b.url.clone(), item_id: signed_decimal_text(b.bookmark_id) }
}

/// The reading list for `bookmarks`: one entry per bookmark, newest (largest
/// id) first, bookmarks with equal ids in their given order.
pub fn parse_instapaper_response(bookmarks: Vec<InstapaperBookmark>) -> (r: Vec<Article>)
    ensures
        r@.len() == bookmarks@.len(),
        forall|i: int|
            0 <= i < r@.len() ==> #[trigger] r@[i]@ == article_of(newest_first(bookmarks@)[i]),
{
    let ghost all = bookmarks@;
    let total = bookmarks.len();
    let mut rest = bookmarks;
    let mut sorted: Vec<InstapaperBookmark> = Vec::new();
    let mut n: usize = 0;
    while rest.len() > 0
        invariant
            n + rest@.len() == all.len(),
            all.len() == total,
            rest@ == all.skip(n as int),
            sorted@ == newest_first(all.take(n as int)),
        decreases rest@.len(),
    {
        let b = rest.remove(0);
        let k = b.bookmark_id;
        let mut j: usize = 0;
        proof {
            lemma_newest_first_len(all.take(n as int));
            assert(sorted@.skip(0) == sorted@);
        }
        while j < sorted.len() && sorted[j].bookmark_id >= k
            invariant
                j <= sorted@.len(),
                insert_position(sorted@, k) == j + insert_position(sorted@.skip(j as int), k),
            decreases sorted@.len() - j,
        {
            assert(sorted@.skip(j as int).drop_first() == sorted@.skip(j + 1));
            j = j + 1;
        }
        assert(insert_position(sorted@, k) == j);
        assert(all.take(n + 1).drop_last() == all.take(n as int));
        assert(all.take(n + 1).last() == b);
        sorted.insert(j, b);
        n = n + 1;
        assert(rest@ == all.skip(n as int));
    }
    assert(all.take(n as int) == all);
    proof {
        lemma_newest_first_len(all);
    }
    let mut out: Vec<Article> = Vec::new();
    let mut i: usize = 0;
    while i < sorted.len()
        invariant
            sorted@ == newest_first(all),
            i <= sorted@.len(),
            out@.len() == i,
            forall|m: int| 0 <= m < i ==> #[trigger] out@[m]@ == article_of(sorted@[m]),
        decreases sorted@.len() - i,
    {
        out.push(article_from(&sorted[i]));
        i = i + 1;
    }
    out
}

} // verus!
