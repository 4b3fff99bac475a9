use vstd::prelude::*;

verus! {

/// One news entry taken from a listing page.
#[derive(Debug)]
pub struct NewsItem<K> {
    pub title: String,
    /// Seconds since the Unix epoch, at midnight UTC of the publication day.
    pub date: i64,
    pub url: String,
    pub kind: K,
}

/// The mathematical value of a `NewsItem`.
pub struct NewsItemView<K> {
    pub title: Seq<char>,
    pub date: i64,
    pub url: Seq<char>,
    pub kind: K,
}

impl<K: Copy> View for NewsItem<K> {
    type V = NewsItemView<K>;

    open spec fn view(&self) -> NewsItemView<K> {
        NewsItemView { title: self.title@, date: self.date, url: self.url@, kind: self.kind }
    }
}

pub open spec fn views<K: Copy>(s: Seq<NewsItem<K>>) -> Seq<NewsItemView<K>> {
    s.map_values(|i: NewsItem<K>| i@)
}

/// Some item of `s` carries the url `url`.
pub open spec fn url_seen<K>(s: Seq<NewsItemView<K>>, url: Seq<char>) -> bool {
    exists|j: int| 0 <= j < s.len() && #[trigger] s[j].url == url
}

/// The items of `s` whose url no earlier item carries, in their order in `s`.
pub open spec fn first_by_url<K>(s: Seq<NewsItemView<K>>) -> Seq<NewsItemView<K>>
    decreases s.len(),
{
    if s.len() == 0 {
        Seq::empty()
    } else {
        let p = s.drop_last();
        let d = first_by_url(p);
        if url_seen(p, s.last().url) {
            d
        } else {
            d.push(s.last())
        }
    }
}

/// Item `i` of `s` is the first one that carries its url.
pub open spec fn is_first<K>(s: Seq<NewsItemView<K>>, i: int) -> bool {
    0 <= i < s.len() && !url_seen(s.take(i), s[i].url)
}

/// Where the first occurrence `i` of a url lands in `first_by_url(s)`.
pub open spec fn rank<K>(s: Seq<NewsItemView<K>>, i: int) -> int {
    first_by_url(s.take(i)).len() as int
}

/// Item `k` of `first_by_url(s)` is the first occurrence of its url in `s`.
pub open spec fn kept_from_first<K>(s: Seq<NewsItemView<K>>, k: int) -> bool {
    exists|i: int|
        #![trigger is_first(s, i)]
        is_first(s, i) && rank(s, i) == k && first_by_url(s)[k] == s[i]
}

/// No two items of `s` carry the same url.
pub open spec fn distinct_urls<K>(s: Seq<NewsItemView<K>>) -> bool {
    forall|a: int, b: int| 0 <= a < b < s.len() ==> s[a].url != s[b].url
}

proof fn lemma_url_seen_push<K>(s: Seq<NewsItemView<K>>, x: NewsItemView<K>, u: Seq<char>)
    ensures
        url_seen(s.push(x), u) == (url_seen(s, u) || x.url == u),
{
    let t = s.push(x);
    if url_seen(s, u) {
        let j = choose|j: int| 0 <= j < s.len() && #[trigger] s[j].url == u;
        assert(t[j].url == u);
    }
    if x.url == u {
        assert(t[s.len() as int].url == u);
    }
    if url_seen(t, u) {
        let j = choose|j: int| 0 <= j < t.len() && #[trigger] t[j].url == u;
        if j < s.len() {
            assert(s[j].url == u);
        }
    }
}

/// Deduplication keeps exactly the urls that occur in its input.
pub proof fn lemma_first_by_url_same_urls<K>(s: Seq<NewsItemView<K>>, u: Seq<char>)
    ensures
        url_seen(first_by_url(s), u) == url_seen(s, u),
    decreases s.len(),
{
    if s.len() > 0 {
        let p = s.drop_last();
        assert(s =~= p.push(s.last()));
        lemma_first_by_url_same_urls(p, u);
        lemma_url_seen_push(p, s.last(), u);
        lemma_url_seen_push(first_by_url(p), s.last(), u);
        if url_seen(p, s.last().url) {
            lemma_first_by_url_same_urls(p, s.last().url);
        }
    }
}

/// The output of deduplication holds no two items with equal urls; it holds the
/// first occurrence of each url of the input, and nothing else, in the order
/// in which those first occurrences stand in the input.
pub proof fn lemma_first_by_url_distinct_in_order<K>(s: Seq<NewsItemView<K>>)
    ensures
        distinct_urls(first_by_url(s)),
        forall|i: int|
            #[trigger] is_first(s, i) ==> rank(s, i) < first_by_url(s).len() && first_by_url(s)[rank(s, i)]
                == s[i],
        forall|i: int, j: int|
            i < j && #[trigger] is_first(s, i) && #[trigger] is_first(s, j) ==> rank(s, i) < rank(s, j),
        forall|k: int| 0 <= k < first_by_url(s).len() ==> #[trigger] kept_from_first(s, k),
    decreases s.len(),
{
    if s.len() > 0 {
        let n = s.len() as int;
        let p = s.drop_last();
        let x = s.last();
        let dp = first_by_url(p);
        let d = first_by_url(s);
        lemma_first_by_url_distinct_in_order(p);
        assert forall|i: int| 0 <= i < n - 1 implies is_first(s, i) == is_first(p, i) && rank(s, i)
            == rank(p, i) by {
            assert(s.take(i) =~= p.take(i));
        }
        assert(s.take(n - 1) =~= p);
        assert(is_first(s, n - 1) == !url_seen(p, x.url));
        assert(rank(s, n - 1) == dp.len());
        assert forall|i: int| #[trigger] is_first(s, i) implies rank(s, i) < d.len() && d[rank(s, i)]
            == s[i] by {
            if i < n - 1 {
                assert(is_first(p, i));
            }
        }
        assert forall|i: int, j: int|
            i < j && #[trigger] is_first(s, i) && #[trigger] is_first(s, j) implies rank(s, i) < rank(
            s,
            j,
        ) by {
            assert(is_first(p, i));
            if j < n - 1 {
                assert(is_first(p, j));
            }
        }
        assert forall|k: int| 0 <= k < first_by_url(s).len() implies #[trigger] kept_from_first(s, k) by {
            if k < dp.len() {
                assert(kept_from_first(p, k));
                let i = choose|i: int| #![trigger is_first(p, i)] is_first(p, i) && rank(p, i) == k && dp[k] == p[i];
                assert(is_first(s, i) && rank(s, i) == k);
            } else {
                assert(is_first(s, n - 1) && rank(s, n - 1) == k);
            }
        }
        if !url_seen(p, x.url) {
            assert forall|a: int, b: int| 0 <= a < b < d.len() implies d[a].url != d[b].url by {
                if b == dp.len() {
                    assert(kept_from_first(p, a));
                    let i = choose|i: int| #![trigger is_first(p, i)] is_first(p, i) && rank(p, i) == a && dp[a] == p[i];
                    assert(p[i].url == d[a].url);
                    if d[a].url == x.url {
                        assert(url_seen(p, x.url));
                    }
                }
            }
        }
    } else {
        assert(first_by_url(s).len() == 0);
    }
}

/// A sequence whose urls are pairwise distinct is left as it is.
pub proof fn lemma_first_by_url_of_distinct<K>(s: Seq<NewsItemView<K>>)
    requires
        distinct_urls(s),
    ensures
        first_by_url(s) == s,
    decreases s.len(),
{
    if s.len() > 0 {
        let p = s.drop_last();
        assert(distinct_urls(p));
        lemma_first_by_url_of_distinct(p);
        if url_seen(p, s.last().url) {
            let j = choose|j: int| 0 <= j < p.len() && #[trigger] p[j].url == s.last().url;
            assert(s[j].url == s[s.len() - 1].url);
        }
        assert(p.push(s.last()) =~= s);
    }
}

/// Deduplicating the output of deduplication changes nothing.
pub proof fn lemma_first_by_url_idempotent<K>(s: Seq<NewsItemView<K>>)
    ensures
        first_by_url(first_by_url(s)) == first_by_url(s),
{
    lemma_first_by_url_distinct_in_order(s);
    lemma_first_by_url_of_distinct(first_by_url(s));
}

/// Keeps the first item of each url, in input order, and drops the later ones.
pub fn dedup_by_url<K: Copy>(items: Vec<NewsItem<K>>) -> (r: Vec<NewsItem<K>>)
    ensures
        views(r@) == first_by_url(views(items@)),
{
    let ghost all = views(items@);
    let mut rest = items;
    let mut out: Vec<NewsItem<K>> = Vec::new();
    while rest.len() > 0
        invariant
            rest.len() <= all.len(),
            views(rest@) == all.skip(all.len() - rest.len()),
            views(out@) == first_by_url(all.take(all.len() - rest.len())),
        decreases rest.len(),
    {
        let ghost k = all.len() - rest.len();
        let ghost before = views(out@);
        let ghost old_rest = rest@;
        let item = rest.remove(0);
        assert(all[k] == item@) by {
            assert(views(old_rest)[0] == all.skip(k)[0]);
        }
        let mut found = false;
        let mut j: usize = 0;
        while j < out.len()
            invariant
                j <= out.len(),
                views(out@) == before,
                found == url_seen(before.take(j as int), item.url@),
            decreases out.len() - j,
        {
            if out[j].url == item.url {
                found = true;
            }
            proof {
                lemma_url_seen_push(before.take(j as int), before[j as int], item.url@);
                assert(before.take(j as int).push(before[j as int]) =~= before.take(j + 1));
            }
            j += 1;
        }
        proof {
            assert(before.take(before.len() as int) =~= before);
            lemma_first_by_url_same_urls(all.take(k), item.url@);
            let next = all.take(k + 1);
            assert(next.drop_last() =~= all.take(k));
            assert(next.last() == item@);
        }
        if !found {
            out.push(item);
            proof {
                assert(views(out@) =~= before.push(all[k]));
            }
        }
        proof {
            assert(views(rest@) =~= all.skip(all.len() - rest.len())) by {
                assert(rest@ =~= old_rest.subrange(1, old_rest.len() as int));
                assert forall|t: int| 0 <= t < rest.len() implies views(rest@)[t] == all.skip(
                    all.len() - rest.len(),
                )[t] by {
                    assert(views(old_rest)[t + 1] == all.skip(k)[t + 1]);
                }
            }
        }
    }
    proof {
        assert(all.take(all.len() as int) =~= all);
    }
    out
}

} // verus!
