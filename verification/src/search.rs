//! The search index: a denormalized document per game, keyed by slug, with a
//! running rating aggregate. The average is kept exactly, as the pair
//! (rating_sum, rating_count); the mean is their quotient and is defined only
//! when the count is positive. The aggregator is a read-modify-write with no
//! compare-and-swap; its read and write are separate operations here, so the
//! lost-update interleaving can be stated and proved, not just feared.
use vstd::prelude::*;
use crate::codec::str_eq;
use crate::events::{GameFields, GameFieldsV, GameChanges, GameChangesV};

verus! {

/// One document of the index.
pub struct SearchDocument {
    pub slug: String,
    pub name: String,
    pub title: Option<String>,
    pub description: Option<String>,
    pub genre: Option<String>,
    pub rating_sum: u64,
    pub rating_count: u64,
}

/// Mathematical value of `SearchDocument`.
pub struct SearchDocumentV {
    pub slug: Seq<char>,
    pub name: Seq<char>,
    pub title: Option<Seq<char>>,
    pub description: Option<Seq<char>>,
    pub genre: Option<Seq<char>>,
    pub rating_sum: u64,
    pub rating_count: u64,
}

impl View for SearchDocument {
    type V = SearchDocumentV;

    open spec fn view(&self) -> SearchDocumentV {
        SearchDocumentV {
            slug: self.slug@,
            name: self.name@,
            title: self.title.deep_view(),
            description: self.description.deep_view(),
            genre: self.genre.deep_view(),
            rating_sum: self.rating_sum,
            rating_count: self.rating_count,
        }
    }
}

impl SearchDocument {
    /// The average rating as an exact fraction (sum, count); defined exactly
    /// when at least one rating was applied.
    pub fn average_parts(&self) -> (r: Option<(u64, u64)>)
        ensures
            self.rating_count == 0 ==> r is None,
            self.rating_count > 0 ==> r == Some((self.rating_sum, self.rating_count)),
    {
        if self.rating_count == 0 {
            None
        } else {
            Some((self.rating_sum, self.rating_count))
        }
    }
}

pub open spec fn has_doc(docs: Seq<SearchDocumentV>, slug: Seq<char>) -> bool {
    exists|i: int| 0 <= i < docs.len() && docs[i].slug == slug
}

pub open spec fn doc_idx(docs: Seq<SearchDocumentV>, slug: Seq<char>) -> int {
    choose|i: int| 0 <= i < docs.len() && docs[i].slug == slug
}

pub open spec fn doc_slugs_unique(docs: Seq<SearchDocumentV>) -> bool {
    forall|i: int, j: int| 0 <= i < j < docs.len() ==> docs[i].slug != docs[j].slug
}

/// The fresh document for a newly created game: no rating yet, so the
/// average is undefined and the count zero.
pub open spec fn new_doc(g: GameFieldsV) -> SearchDocumentV {
    SearchDocumentV {
        slug: g.slug,
        name: g.name,
        title: g.title,
        description: g.description,
        genre: g.genre,
        rating_sum: 0,
        rating_count: 0,
    }
}

/// Indexing writes the fresh document under its key, replacing any document
/// already there.
pub open spec fn spec_index_game(docs: Seq<SearchDocumentV>, g: GameFieldsV) -> Seq<
    SearchDocumentV,
> {
    if has_doc(docs, g.slug) {
        docs.update(doc_idx(docs, g.slug), new_doc(g))
    } else {
        docs.push(new_doc(g))
    }
}

/// A field update overlays only the changed fields and leaves the rating
/// aggregate untouched; a missing document is left alone.
pub open spec fn overlay_doc(d: SearchDocumentV, c: GameChangesV) -> SearchDocumentV {
    SearchDocumentV {
        title: if c.title is Some {
            c.title
        } else {
            d.title
        },
        description: if c.description is Some {
            c.description
        } else {
            d.description
        },
        genre: if c.genre is Some {
            c.genre
        } else {
            d.genre
        },
        ..d
    }
}

pub open spec fn spec_update_doc(
    docs: Seq<SearchDocumentV>,
    slug: Seq<char>,
    c: GameChangesV,
) -> Seq<SearchDocumentV> {
    if has_doc(docs, slug) {
        docs.update(doc_idx(docs, slug), overlay_doc(docs[doc_idx(docs, slug)], c))
    } else {
        docs
    }
}

/// Removal by key; absence is not an error.
pub open spec fn spec_delete_doc(docs: Seq<SearchDocumentV>, slug: Seq<char>) -> Seq<
    SearchDocumentV,
> {
    if has_doc(docs, slug) {
        docs.remove(doc_idx(docs, slug))
    } else {
        docs
    }
}

/// The aggregator's read: the document's (sum, count), defaulting to (0, 0)
/// when the document is absent.
pub open spec fn spec_rating_state(docs: Seq<SearchDocumentV>, slug: Seq<char>) -> (u64, u64) {
    if has_doc(docs, slug) {
        let d = docs[doc_idx(docs, slug)];
        (d.rating_sum, d.rating_count)
    } else {
        (0, 0)
    }
}

/// The aggregator's write: sets the rating aggregate of the document, leaving
/// every other field alone; writing to a missing document does nothing, as a
/// partial update of a missing document fails at the index and is only
/// logged.
pub open spec fn spec_write_rating(
    docs: Seq<SearchDocumentV>,
    slug: Seq<char>,
    sum: u64,
    count: u64,
) -> Seq<SearchDocumentV> {
    if has_doc(docs, slug) {
        let i = doc_idx(docs, slug);
        docs.update(i, SearchDocumentV { rating_sum: sum, rating_count: count, ..docs[i] })
    } else {
        docs
    }
}

/// One whole aggregation step: read, add the rating, write back. When the
/// new aggregate would not fit the counters, the write is dropped and the
/// index left stale but uncorrupted.
pub open spec fn spec_submit_rating(
    docs: Seq<SearchDocumentV>,
    slug: Seq<char>,
    rating: i32,
) -> Seq<SearchDocumentV> {
    let st = spec_rating_state(docs, slug);
    if st.0 + rating <= u64::MAX && st.1 + 1 <= u64::MAX {
        spec_write_rating(docs, slug, (st.0 + rating) as u64, (st.1 + 1) as u64)
    } else {
        docs
    }
}

/// Indexing keeps slugs unique and makes the key present.
pub proof fn lemma_index_game_unique(docs: Seq<SearchDocumentV>, g: GameFieldsV)
    requires
        doc_slugs_unique(docs),
    ensures
        doc_slugs_unique(spec_index_game(docs, g)),
        has_doc(spec_index_game(docs, g), g.slug),
{
    let out = spec_index_game(docs, g);
    if has_doc(docs, g.slug) {
        let i = doc_idx(docs, g.slug);
        assert(0 <= i < docs.len() && docs[i].slug == g.slug);
        assert(out[i] == new_doc(g));
        assert forall|a: int, b: int| 0 <= a < b < out.len() implies out[a].slug != out[b].slug by {
            assert(out[a].slug == docs[a].slug && out[b].slug == docs[b].slug);
        }
    } else {
        assert(out[docs.len() as int] == new_doc(g));
        assert forall|a: int, b: int| 0 <= a < b < out.len() implies out[a].slug != out[b].slug by {
            if b < docs.len() {
                assert(out[a] == docs[a] && out[b] == docs[b]);
            } else {
                assert(out[a] == docs[a] && out[b] == new_doc(g));
            }
        }
    }
}

/// Deleting keeps slugs unique and leaves the key absent.
pub proof fn lemma_delete_doc_gone(docs: Seq<SearchDocumentV>, slug: Seq<char>)
    requires
        doc_slugs_unique(docs),
    ensures
        doc_slugs_unique(spec_delete_doc(docs, slug)),
        !has_doc(spec_delete_doc(docs, slug), slug),
{
    if has_doc(docs, slug) {
        let i = doc_idx(docs, slug);
        assert(0 <= i < docs.len() && docs[i].slug == slug);
        let out = docs.remove(i);
        assert forall|k: int| 0 <= k < out.len() implies out[k].slug != slug by {
            if k < i {
                assert(out[k] == docs[k]);
            } else {
                assert(out[k] == docs[k + 1]);
            }
        }
        assert forall|a: int, b: int| 0 <= a < b < out.len() implies out[a].slug != out[b].slug by {
            let ra = if a < i { a } else { a + 1 };
            let rb = if b < i { b } else { b + 1 };
            assert(out[a] == docs[ra] && out[b] == docs[rb]);
        }
    }
}

fn clone_opt_string(s: &Option<String>) -> (r: Option<String>)
    ensures
        r.deep_view() == s.deep_view(),
{
    match s {
        Some(x) => Some(String::from_str(x.as_str())),
        None => None,
    }
}

/// The search index.
pub struct SearchIndex {
    docs: Vec<SearchDocument>,
}

impl View for SearchIndex {
    type V = Seq<SearchDocumentV>;

    closed spec fn view(&self) -> Seq<SearchDocumentV> {
        self.docs@.map_values(|d: SearchDocument| d@)
    }
}

impl SearchIndex {
    /// Key uniqueness: one document per slug.
    pub open spec fn wf(&self) -> bool {
        doc_slugs_unique(self@)
    }

    pub fn new() -> (r: SearchIndex)
        ensures
            r@ == Seq::<SearchDocumentV>::empty(),
            r.wf(),
    {
        let r = SearchIndex { docs: Vec::new() };
        proof {
            assert(r@ =~= Seq::<SearchDocumentV>::empty());
        }
        r
    }

    pub fn len(&self) -> (r: usize)
        ensures
            r == self@.len(),
    {
        self.docs.len()
    }

    fn find(&self, slug: &str) -> (r: Option<usize>)
        ensures
            match r {
                Some(i) => i < self@.len() && self@[i as int].slug == slug@,
                None => !has_doc(self@, slug@),
            },
    {
        let mut i: usize = 0;
        while i < self.docs.len()
            invariant
                0 <= i <= self@.len(),
                self@.len() == self.docs@.len(),
                forall|j: int| 0 <= j < i ==> self@[j].slug != slug@,
            decreases self@.len() - i,
        {
            if str_eq(self.docs[i].slug.as_str(), slug) {
                return Some(i);
            }
            i = i + 1;
        }
        None
    }

    proof fn lemma_find_idx(&self, slug: Seq<char>, i: int)
        requires
            self.wf(),
            0 <= i < self@.len(),
            self@[i].slug == slug,
        ensures
            doc_idx(self@, slug) == i,
    {
        let j = doc_idx(self@, slug);
        assert(0 <= j < self@.len() && self@[j].slug == slug);
    }

    /// The document for a slug, if one is indexed.
    pub fn get_doc(&self, slug: &str) -> (r: Option<&SearchDocument>)
        ensures
            match r {
                Some(d) => has_doc(self@, slug@) && d@.slug == slug@ && exists|i: int|
                    0 <= i < self@.len() && self@[i] == d@,
                None => !has_doc(self@, slug@),
            },
    {
        match self.find(slug) {
            Some(i) => Some(&self.docs[i]),
            None => None,
        }
    }

    /// Handles a game creation: indexes the fresh document, with no rating
    /// and an undefined average, replacing any document under the same key.
    pub fn index_game(&mut self, g: &GameFields)
        requires
            old(self).wf(),
        ensures
            final(self).wf(),
            final(self)@ == spec_index_game(old(self)@, g@),
    {
        let doc = SearchDocument {
            slug: String::from_str(g.slug.as_str()),
            name: String::from_str(g.name.as_str()),
            title: clone_opt_string(&g.title),
            description: clone_opt_string(&g.description),
            genre: clone_opt_string(&g.genre),
            rating_sum: 0,
            rating_count: 0,
        };
        let ghost before = self@;
        match self.find(g.slug.as_str()) {
            Some(i) => {
                proof {
                    self.lemma_find_idx(g.slug@, i as int);
                }
                self.docs.set(i, doc);
                proof {
                    assert(self@ =~= before.update(i as int, new_doc(g@)));
                }
            },
            None => {
                self.docs.push(doc);
                proof {
                    assert(self@ =~= before.push(new_doc(g@)));
                }
            },
        }
    }

    /// Handles a game update: overlays the changed fields, leaves the rating
    /// aggregate untouched, and skips a missing document.
    pub fn update_game(&mut self, slug: &str, changes: &GameChanges) -> (r: bool)
        requires
            old(self).wf(),
        ensures
            final(self).wf(),
            final(self)@ == spec_update_doc(old(self)@, slug@, changes@),
            r == has_doc(old(self)@, slug@),
    {
        let ghost before = self@;
        match self.find(slug) {
            Some(i) => {
                proof {
                    self.lemma_find_idx(slug@, i as int);
                }
                let d = &self.docs[i];
                let new_d = SearchDocument {
                    slug: String::from_str(d.slug.as_str()),
                    name: String::from_str(d.name.as_str()),
                    title: match &changes.title {
                        Some(t) => Some(String::from_str(t.as_str())),
                        None => clone_opt_string(&d.title),
                    },
                    description: match &changes.description {
                        Some(t) => Some(String::from_str(t.as_str())),
                        None => clone_opt_string(&d.description),
                    },
                    genre: match &changes.genre {
                        Some(t) => Some(String::from_str(t.as_str())),
                        None => clone_opt_string(&d.genre),
                    },
                    rating_sum: d.rating_sum,
                    rating_count: d.rating_count,
                };
                self.docs.set(i, new_d);
                proof {
                    assert(self@ =~= before.update(i as int, overlay_doc(before[i as int], changes@)));
                }
                true
            },
            None => false,
        }
    }

    /// Handles a game deletion: removes the document; absence is no error.
    pub fn delete_game(&mut self, slug: &str) -> (r: bool)
        requires
            old(self).wf(),
        ensures
            final(self).wf(),
            final(self)@ == spec_delete_doc(old(self)@, slug@),
            !has_doc(final(self)@, slug@),
            r == has_doc(old(self)@, slug@),
    {
        let ghost before = self@;
        match self.find(slug) {
            Some(i) => {
                proof {
                    self.lemma_find_idx(slug@, i as int);
                }
                self.docs.remove(i);
                proof {
                    assert(self@ =~= before.remove(i as int));
                    assert forall|k: int| 0 <= k < self@.len() implies self@[k].slug != slug@ by {
                        if k < i {
                            assert(self@[k] == before[k]);
                        } else {
                            assert(self@[k] == before[k + 1]);
                        }
                    }
                }
                true
            },
            None => false,
        }
    }

    /// The aggregator's read step: (sum, count), defaulting to (0, 0) when
    /// the document is absent.
    pub fn read_rating_state(&self, slug: &str) -> (r: (u64, u64))
        requires
            self.wf(),
        ensures
            r == spec_rating_state(self@, slug@),
    {
        match self.find(slug) {
            Some(i) => {
                proof {
                    self.lemma_find_idx(slug@, i as int);
                }
                (self.docs[i].rating_sum, self.docs[i].rating_count)
            },
            None => (0, 0),
        }
    }

    /// The aggregator's write step: stores the new aggregate; a missing
    /// document swallows the write.
    pub fn write_rating_state(&mut self, slug: &str, sum: u64, count: u64)
        requires
            old(self).wf(),
        ensures
            final(self).wf(),
            final(self)@ == spec_write_rating(old(self)@, slug@, sum, count),
    {
        let ghost before = self@;
        match self.find(slug) {
            Some(i) => {
                proof {
                    self.lemma_find_idx(slug@, i as int);
                }
                let d = &self.docs[i];
                let new_d = SearchDocument {
                    slug: String::from_str(d.slug.as_str()),
                    name: String::from_str(d.name.as_str()),
                    title: clone_opt_string(&d.title),
                    description: clone_opt_string(&d.description),
                    genre: clone_opt_string(&d.genre),
                    rating_sum: sum,
                    rating_count: count,
                };
                self.docs.set(i, new_d);
                proof {
                    assert(self@ =~= spec_write_rating(before, slug@, sum, count));
                }
            },
            None => {},
        }
    }

    /// The whole aggregation step, read to write, as one sequential call.
    pub fn submit_rating(&mut self, slug: &str, rating: i32) -> (r: (u64, u64))
        requires
            old(self).wf(),
            1 <= rating <= 5,
        ensures
            final(self).wf(),
            final(self)@ == spec_submit_rating(old(self)@, slug@, rating),
            spec_rating_state(old(self)@, slug@).0 + rating <= u64::MAX && spec_rating_state(
                old(self)@,
                slug@,
            ).1 + 1 <= u64::MAX ==> r == ((spec_rating_state(old(self)@, slug@).0 + rating) as u64, (
            spec_rating_state(old(self)@, slug@).1 + 1) as u64),
    {
        let (sum, count) = self.read_rating_state(slug);
        if sum <= u64::MAX - (rating as u64) && count < u64::MAX {
            let new_sum = sum + (rating as u64);
            let new_count = count + 1;
            self.write_rating_state(slug, new_sum, new_count);
            (new_sum, new_count)
        } else {
            (sum, count)
        }
    }
}

// ---------------------------------------------------------------------------
// The read side: documents ranked by average rating, best first
// ---------------------------------------------------------------------------
/// `a` may stand no later than `b` in the ranking: a higher or equal average
/// comes first, and a document without ratings comes after every rated one.
/// Averages are compared as fractions: sum_a/count_a >= sum_b/count_b exactly
/// when sum_a * count_b >= sum_b * count_a.
pub open spec fn ranked_no_later(a: SearchDocumentV, b: SearchDocumentV) -> bool {
    if a.rating_count > 0 && b.rating_count > 0 {
        a.rating_sum * b.rating_count >= b.rating_sum * a.rating_count
    } else if a.rating_count == 0 && b.rating_count > 0 {
        false
    } else {
        true
    }
}

/// Descending by average rating, unrated documents last.
pub open spec fn sorted_desc(s: Seq<SearchDocumentV>) -> bool {
    forall|i: int, j: int| 0 <= i < j < s.len() ==> ranked_no_later(#[trigger] s[i], #[trigger] s[j])
}

proof fn lemma_ranked_total(a: SearchDocumentV, b: SearchDocumentV)
    ensures
        ranked_no_later(a, b) || ranked_no_later(b, a),
{
}

proof fn lemma_ranked_trans(a: SearchDocumentV, b: SearchDocumentV, c: SearchDocumentV)
    requires
        ranked_no_later(a, b),
        ranked_no_later(b, c),
    ensures
        ranked_no_later(a, c),
{
    if a.rating_count > 0 && b.rating_count > 0 && c.rating_count > 0 {
        assert(a.rating_sum * c.rating_count >= c.rating_sum * a.rating_count) by (nonlinear_arith)
            requires
                a.rating_sum * b.rating_count >= b.rating_sum * a.rating_count,
                b.rating_sum * c.rating_count >= c.rating_sum * b.rating_count,
                a.rating_count > 0,
                b.rating_count > 0,
                c.rating_count > 0,
                a.rating_sum >= 0,
                b.rating_sum >= 0,
                c.rating_sum >= 0,
        {}
    }
}

fn ranked_before(a: &SearchDocument, b: &SearchDocument) -> (r: bool)
    ensures
        r == ranked_no_later(a@, b@),
{
    if a.rating_count > 0 && b.rating_count > 0 {
        proof {
            assert((a.rating_sum as u128) * (b.rating_count as u128) <= u128::MAX)
                by (nonlinear_arith)
                requires
                    a.rating_sum <= u64::MAX,
                    b.rating_count <= u64::MAX,
            {}
            assert((b.rating_sum as u128) * (a.rating_count as u128) <= u128::MAX)
                by (nonlinear_arith)
                requires
                    b.rating_sum <= u64::MAX,
                    a.rating_count <= u64::MAX,
            {}
        }
        (a.rating_sum as u128) * (b.rating_count as u128) >= (b.rating_sum as u128) * (
        a.rating_count as u128)
    } else if a.rating_count == 0 && b.rating_count > 0 {
        false
    } else {
        true
    }
}

fn clone_doc(d: &SearchDocument) -> (r: SearchDocument)
    ensures
        r@ == d@,
{
    SearchDocument {
        slug: String::from_str(d.slug.as_str()),
        name: String::from_str(d.name.as_str()),
        title: clone_opt_string(&d.title),
        description: clone_opt_string(&d.description),
        genre: clone_opt_string(&d.genre),
        rating_sum: d.rating_sum,
        rating_count: d.rating_count,
    }
}

fn find_best(docs: &Vec<SearchDocument>) -> (m: usize)
    requires
        docs@.len() > 0,
    ensures
        m < docs@.len(),
        forall|k: int|
            0 <= k < docs@.len() ==> ranked_no_later(docs@[m as int]@, #[trigger] docs@[k]@),
{
    let mut m: usize = 0;
    let mut k: usize = 1;
    while k < docs.len()
        invariant
            0 <= m < k <= docs@.len(),
            forall|j: int| 0 <= j < k ==> ranked_no_later(docs@[m as int]@, #[trigger] docs@[j]@),
        decreases docs@.len() - k,
    {
        if !ranked_before(&docs[m], &docs[k]) {
            proof {
                lemma_ranked_total(docs@[m as int]@, docs@[k as int]@);
                assert forall|j: int|
                    0 <= j < k + 1 implies ranked_no_later(
                    docs@[k as int]@,
                    #[trigger] docs@[j]@,
                ) by {
                    if j < k {
                        lemma_ranked_trans(docs@[k as int]@, docs@[m as int]@, docs@[j]@);
                    }
                }
            }
            m = k;
        }
        k = k + 1;
    }
    m
}

/// A full ranking of the given documents: some descending order of exactly
/// these documents.
pub open spec fn is_ranking(index: Seq<SearchDocumentV>, all: Seq<SearchDocumentV>) -> bool {
    sorted_desc(all) && all.to_multiset() == index.to_multiset()
}

/// The window `[from, from + size)` of a ranking, clipped to its length.
pub open spec fn page_of(all: Seq<SearchDocumentV>, from: int, size: int) -> Seq<SearchDocumentV> {
    let start = if from < all.len() {
        from
    } else {
        all.len() as int
    };
    let end = if from + size < all.len() {
        from + size
    } else {
        all.len() as int
    };
    all.subrange(start, end)
}

fn sort_docs(input: Vec<SearchDocument>) -> (r: Vec<SearchDocument>)
    ensures
        sorted_desc(r@.map_values(|d: SearchDocument| d@)),
        r@.map_values(|d: SearchDocument| d@).to_multiset() == input@.map_values(
            |d: SearchDocument| d@,
        ).to_multiset(),
{
    broadcast use vstd::seq_lib::group_to_multiset_ensures;

    let ghost orig = input@.map_values(|d: SearchDocument| d@);
    let mut rem = input;
    let mut out: Vec<SearchDocument> = Vec::new();
    proof {
        assert(out@.map_values(|d: SearchDocument| d@) =~= Seq::<SearchDocumentV>::empty());
        assert(out@.map_values(|d: SearchDocument| d@).to_multiset().add(
            rem@.map_values(|d: SearchDocument| d@).to_multiset(),
        ) =~= orig.to_multiset());
    }
    while rem.len() > 0
        invariant
            sorted_desc(out@.map_values(|d: SearchDocument| d@)),
            out@.map_values(|d: SearchDocument| d@).to_multiset().add(
                rem@.map_values(|d: SearchDocument| d@).to_multiset(),
            ) == orig.to_multiset(),
            forall|i: int, j: int|
                0 <= i < out@.len() && 0 <= j < rem@.len() ==> ranked_no_later(
                    #[trigger] out@[i]@,
                    #[trigger] rem@[j]@,
                ),
        decreases rem@.len(),
    {
        let ghost out_v = out@.map_values(|d: SearchDocument| d@);
        let ghost rem_v = rem@.map_values(|d: SearchDocument| d@);
        let m = find_best(&rem);
        let d = rem.remove(m);
        out.push(d);
        proof {
            assert(out@.map_values(|d: SearchDocument| d@) =~= out_v.push(d@));
            assert(rem@.map_values(|d: SearchDocument| d@) =~= rem_v.remove(m as int));
            assert(rem_v[m as int] == d@);
            let out2 = out_v.push(d@);
            assert forall|i: int, j: int|
                0 <= i < j < out2.len() implies ranked_no_later(
                #[trigger] out2[i],
                #[trigger] out2[j],
            ) by {
                if j < out_v.len() {
                    assert(out2[i] == out_v[i] && out2[j] == out_v[j]);
                } else {
                    assert(out2[i] == out_v[i] && out2[j] == d@);
                    assert(ranked_no_later(out_v[i], rem_v[m as int]));
                }
            }
            assert(rem_v.contains(d@));
            rem_v.to_multiset_ensures();
            out_v.to_multiset_ensures();
            assert(rem_v.to_multiset().count(d@) > 0);
            assert(out2.to_multiset() =~= out_v.to_multiset().insert(d@));
            assert(rem_v.remove(m as int).to_multiset() =~= rem_v.to_multiset().remove(d@));
            assert(out2.to_multiset().add(rem_v.remove(m as int).to_multiset())
                =~= out_v.to_multiset().add(rem_v.to_multiset()));
            assert forall|i: int, j: int|
                0 <= i < out2.len() && 0 <= j < rem_v.remove(m as int).len()
                    implies ranked_no_later(
                #[trigger] out2[i],
                #[trigger] rem_v.remove(m as int)[j],
            ) by {
                let x = rem_v.remove(m as int)[j];
                assert(x == if j < m as int {
                    rem_v[j]
                } else {
                    rem_v[j + 1]
                });
                if i < out_v.len() {
                    assert(out2[i] == out_v[i]);
                } else {
                    assert(out2[i] == d@);
                    assert(ranked_no_later(rem_v[m as int], x));
                }
            }
        }
    }
    proof {
        assert(rem@.map_values(|d: SearchDocument| d@) =~= Seq::<SearchDocumentV>::empty());
        assert(out@.map_values(|d: SearchDocument| d@).to_multiset() =~= orig.to_multiset());
    }
    out
}

impl SearchIndex {
    /// The search surface: documents ranked by average rating, best first and
    /// unrated games last, windowed by `from` and `size`. The result is the
    /// clipped window `[from, from + size)` of a full ranking of the index.
    pub fn search_page(&self, from: usize, size: usize) -> (r: Vec<SearchDocument>)
        ensures
            exists|all: Seq<SearchDocumentV>|
                #[trigger] is_ranking(self@, all) && r@.map_values(|d: SearchDocument| d@)
                    == page_of(all, from as int, size as int),
    {
        let mut copy: Vec<SearchDocument> = Vec::new();
        let mut i: usize = 0;
        while i < self.docs.len()
            invariant
                0 <= i <= self.docs@.len(),
                copy@.map_values(|d: SearchDocument| d@) == self@.subrange(0, i as int),
            decreases self.docs@.len() - i,
        {
            let ghost before = copy@.map_values(|d: SearchDocument| d@);
            copy.push(clone_doc(&self.docs[i]));
            proof {
                assert(copy@.map_values(|d: SearchDocument| d@) =~= before.push(
                    self@[i as int],
                ));
                assert(copy@.map_values(|d: SearchDocument| d@) =~= self@.subrange(0, i + 1));
            }
            i = i + 1;
        }
        proof {
            assert(copy@.map_values(|d: SearchDocument| d@) =~= self@);
        }
        let sorted = sort_docs(copy);
        let ghost all = sorted@.map_values(|d: SearchDocument| d@);
        let n = sorted.len();
        let start = if from < n {
            from
        } else {
            n
        };
        let end = if size < n - start {
            start + size
        } else {
            n
        };
        let mut page: Vec<SearchDocument> = Vec::new();
        let mut i: usize = start;
        while i < end
            invariant
                start <= i <= end <= n,
                n == sorted@.len(),
                all == sorted@.map_values(|d: SearchDocument| d@),
                page@.map_values(|d: SearchDocument| d@) == all.subrange(start as int, i as int),
            decreases end - i,
        {
            let ghost before = page@.map_values(|d: SearchDocument| d@);
            page.push(clone_doc(&sorted[i]));
            proof {
                assert(page@.map_values(|d: SearchDocument| d@) =~= before.push(all[i as int]));
                assert(page@.map_values(|d: SearchDocument| d@) =~= all.subrange(
                    start as int,
                    i + 1,
                ));
            }
            i = i + 1;
        }
        proof {
            assert(is_ranking(self@, all));
            assert(page@.map_values(|d: SearchDocument| d@) =~= page_of(
                all,
                from as int,
                size as int,
            ));
        }
        page
    }
}

/// Sum of a sequence of ratings.
pub open spec fn sum_of(rs: Seq<i32>) -> int
    decreases rs.len(),
{
    if rs.len() == 0 {
        0
    } else {
        sum_of(rs.drop_last()) + rs.last()
    }
}

/// The index after a sequence of ratings for one slug, applied one at a time.
pub open spec fn spec_submit_all(
    docs: Seq<SearchDocumentV>,
    slug: Seq<char>,
    rs: Seq<i32>,
) -> Seq<SearchDocumentV>
    decreases rs.len(),
{
    if rs.len() == 0 {
        docs
    } else {
        spec_write_rating(
            spec_submit_all(docs, slug, rs.drop_last()),
            slug,
            (spec_rating_state(spec_submit_all(docs, slug, rs.drop_last()), slug).0
                + rs.last()) as u64,
            (spec_rating_state(spec_submit_all(docs, slug, rs.drop_last()), slug).1 + 1) as u64,
        )
    }
}

proof fn lemma_submit_all_unfold(docs: Seq<SearchDocumentV>, slug: Seq<char>, rs: Seq<i32>)
    requires
        forall|k: int| 0 <= k < rs.len() ==> 1 <= #[trigger] rs[k] <= 5,
        has_doc(docs, slug),
        doc_slugs_unique(docs),
        docs[doc_idx(docs, slug)].rating_sum + 5 * rs.len() <= u64::MAX,
        docs[doc_idx(docs, slug)].rating_count + rs.len() <= u64::MAX,
    ensures
        ({
            let out = spec_submit_all(docs, slug, rs);
            &&& out.len() == docs.len()
            &&& doc_slugs_unique(out)
            &&& has_doc(out, slug)
            &&& doc_idx(out, slug) == doc_idx(docs, slug)
            &&& out[doc_idx(docs, slug)].rating_sum == docs[doc_idx(docs, slug)].rating_sum
                + sum_of(rs)
            &&& out[doc_idx(docs, slug)].rating_count == docs[doc_idx(docs, slug)].rating_count
                + rs.len()
            &&& forall|k: int|
                0 <= k < docs.len() && k != doc_idx(docs, slug) ==> out[k] == docs[k]
            &&& out == spec_submit_all(docs, slug, rs)
        }),
    decreases rs.len(),
{
    let i = doc_idx(docs, slug);
    if rs.len() == 0 {
    } else {
        let head = rs.drop_last();
        assert(forall|k: int| 0 <= k < head.len() ==> 1 <= #[trigger] head[k] <= 5) by {
            assert(forall|k: int| 0 <= k < head.len() ==> head[k] == rs[k]);
        }
        assert(sum_of(head) >= 0 && sum_of(head) <= 5 * head.len()) by {
            lemma_sum_bounds(head);
        }
        lemma_submit_all_unfold(docs, slug, head);
        let mid = spec_submit_all(docs, slug, head);
        assert(doc_idx(mid, slug) == i);
        assert(1 <= rs.last() <= 5);
        let st = spec_rating_state(mid, slug);
        assert(st.0 == docs[i].rating_sum + sum_of(head));
        assert(st.1 == docs[i].rating_count + head.len());
        let out = spec_submit_all(docs, slug, rs);
        assert(out == spec_write_rating(mid, slug, (st.0 + rs.last()) as u64, (st.1 + 1) as u64));
        assert(out[i].rating_sum == docs[i].rating_sum + sum_of(head) + rs.last());
        assert(sum_of(rs) == sum_of(head) + rs.last());
        assert forall|k: int| 0 <= k < docs.len() && k != i implies out[k] == docs[k] by {
            assert(mid[k] == docs[k]);
        }
        assert forall|a: int, b: int| 0 <= a < b < out.len() implies out[a].slug != out[b].slug by {
            assert(out[a].slug == mid[a].slug);
            assert(out[b].slug == mid[b].slug);
        }
        assert(out[i].slug == mid[i].slug);
        assert(has_doc(out, slug));
        let j = doc_idx(out, slug);
        assert(0 <= j < out.len() && out[j].slug == slug);
        if j != i {
            assert(out[j].slug == out[i].slug);
        }
    }
}

proof fn lemma_sum_bounds(rs: Seq<i32>)
    requires
        forall|k: int| 0 <= k < rs.len() ==> 1 <= #[trigger] rs[k] <= 5,
    ensures
        rs.len() <= sum_of(rs) <= 5 * rs.len(),
    decreases rs.len(),
{
    if rs.len() > 0 {
        let head = rs.drop_last();
        assert(forall|k: int| 0 <= k < head.len() ==> 1 <= #[trigger] head[k] <= 5) by {
            assert(forall|k: int| 0 <= k < head.len() ==> head[k] == rs[k]);
        }
        lemma_sum_bounds(head);
    }
}

/// Aggregation correctness under sequential delivery: ratings for one slug,
/// applied strictly one at a time against its document, leave the document
/// with sum increased by the total of the ratings and count increased by
/// their number — so the stored average is exactly the arithmetic mean of
/// all ratings applied. Every other document, and every other field of this
/// one, is untouched.
pub proof fn lemma_sequential_aggregation(
    docs: Seq<SearchDocumentV>,
    slug: Seq<char>,
    rs: Seq<i32>,
)
    requires
        forall|k: int| 0 <= k < rs.len() ==> 1 <= #[trigger] rs[k] <= 5,
        doc_slugs_unique(docs),
        has_doc(docs, slug),
        docs[doc_idx(docs, slug)].rating_sum + 5 * rs.len() <= u64::MAX,
        docs[doc_idx(docs, slug)].rating_count + rs.len() <= u64::MAX,
    ensures
        ({
            let out = spec_submit_all(docs, slug, rs);
            let i = doc_idx(docs, slug);
            &&& out[i].rating_sum == docs[i].rating_sum + sum_of(rs)
            &&& out[i].rating_count == docs[i].rating_count + rs.len()
            &&& out[i].slug == docs[i].slug
            &&& forall|k: int| 0 <= k < docs.len() && k != i ==> out[k] == docs[k]
        }),
{
    lemma_submit_all_unfold(docs, slug, rs);
    let out = spec_submit_all(docs, slug, rs);
    let i = doc_idx(docs, slug);
    if rs.len() > 0 {
        assert(out[i].slug == docs[i].slug) by {
            lemma_sum_bounds(rs);
        }
    }
}

/// Lost-update exposure under concurrency: two submissions for one slug whose
/// read-modify-write steps interleave — both read the zero aggregate before
/// either writes — leave a count of 1, not 2: the first write is silently
/// overwritten by the second. Sequential application of the same two
/// submissions leaves a count of 2. This documents the unsynchronized
/// read-modify-write gap.
pub proof fn lemma_lost_update(docs: Seq<SearchDocumentV>, slug: Seq<char>, r1: i32, r2: i32)
    requires
        doc_slugs_unique(docs),
        has_doc(docs, slug),
        docs[doc_idx(docs, slug)].rating_sum == 0,
        docs[doc_idx(docs, slug)].rating_count == 0,
        1 <= r1 <= 5,
        1 <= r2 <= 5,
    ensures
        ({
            // Interleaved: both aggregators read (0, 0), then write in turn.
            let read = spec_rating_state(docs, slug);
            let after_first = spec_write_rating(docs, slug, (read.0 + r1) as u64, (read.1 + 1) as u64);
            let after_both = spec_write_rating(
                after_first,
                slug,
                (read.0 + r2) as u64,
                (read.1 + 1) as u64,
            );
            &&& read == (0u64, 0u64)
            &&& spec_rating_state(after_both, slug) == ((r2 as u64, 1u64))
            &&& spec_rating_state(after_both, slug).1 == 1
        }),
        ({
            // Sequential: the second read sees the first write.
            let seq2 = spec_submit_all(docs, slug, seq![r1, r2]);
            spec_rating_state(seq2, slug).1 == 2 && spec_rating_state(seq2, slug).0 == r1 + r2
        }),
{
    let i = doc_idx(docs, slug);
    let read = spec_rating_state(docs, slug);
    assert(read == (0u64, 0u64));
    let after_first = spec_write_rating(docs, slug, (read.0 + r1) as u64, (read.1 + 1) as u64);
    assert(after_first[i].slug == docs[i].slug);
    assert(doc_slugs_unique(after_first)) by {
        assert(forall|k: int|
            0 <= k < after_first.len() ==> #[trigger] after_first[k].slug == docs[k].slug);
    }
    assert(doc_idx(after_first, slug) == i) by {
        let j = doc_idx(after_first, slug);
        assert(0 <= j < after_first.len() && after_first[j].slug == slug);
        if j != i {
            assert(after_first[j].slug == after_first[i].slug);
            assert(docs[j].slug == docs[i].slug);
        }
    }
    let after_both = spec_write_rating(after_first, slug, (read.0 + r2) as u64, (read.1 + 1) as u64);
    assert(doc_idx(after_both, slug) == i) by {
        let j = doc_idx(after_both, slug);
        assert(0 <= j < after_both.len() && after_both[j].slug == slug);
        assert(forall|k: int|
            0 <= k < after_both.len() ==> #[trigger] after_both[k].slug == after_first[k].slug);
        if j != i {
            assert(docs[j].slug == docs[i].slug);
        }
    }
    assert(after_both[i].rating_sum == r2 && after_both[i].rating_count == 1);
    // Sequential run.
    let rs = seq![r1, r2];
    assert(forall|k: int| 0 <= k < rs.len() ==> 1 <= #[trigger] rs[k] <= 5) by {
        assert(rs[0] == r1 && rs[1] == r2);
    }
    lemma_submit_all_unfold(docs, slug, rs);
    let seq2 = spec_submit_all(docs, slug, rs);
    assert(sum_of(rs) == r1 + r2) by {
        assert(rs.drop_last() =~= seq![r1]);
        assert(seq![r1].drop_last() =~= Seq::<i32>::empty());
        assert(sum_of(Seq::<i32>::empty()) == 0);
        assert(seq![r1].last() == r1);
        assert(sum_of(seq![r1]) == sum_of(seq![r1].drop_last()) + seq![r1].last());
        assert(sum_of(seq![r1]) == r1);
        assert(rs.last() == r2);
        assert(sum_of(rs) == sum_of(rs.drop_last()) + rs.last());
    }
    assert(doc_idx(seq2, slug) == i);
    assert(seq2[i].rating_count == 2 && seq2[i].rating_sum == r1 + r2);
}

} // verus!
