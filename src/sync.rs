//! Decides which posts of each timeline are missing from the other.
use vstd::prelude::*;
use crate::normalize::{tweet_get_text, tweet_text, Tweet};

verus! {

/// Posts that still have to be published on each platform.
pub struct StatusUpdates {
    /// Texts of tweets to post on Mastodon, newest first.
    pub toots: Vec<String>,
    /// Texts of toots to post on Twitter, newest first.
    pub tweets: Vec<String>,
}

/// Index of the first post of `b` (newest first) whose text also stands in
/// `a`, or the length of `b` where there is none.
pub open spec fn frontier(b: Seq<Seq<char>>, a: Seq<Seq<char>>) -> int
    decreases b.len(),
{
    if b.len() == 0 {
        0
    } else if a.contains(b[0]) {
        0
    } else {
        1 + frontier(b.drop_first(), a)
    }
}

/// The posts of `b` newer than the frontier: those still missing from `a`.
pub open spec fn missing(b: Seq<Seq<char>>, a: Seq<Seq<char>>) -> Seq<Seq<char>> {
    b.take(frontier(b, a))
}

pub open spec fn texts(v: Seq<String>) -> Seq<Seq<char>> {
    v.map_values(|s: String| s@)
}

pub open spec fn tweet_texts(v: Seq<Tweet>) -> Seq<Seq<char>> {
    v.map_values(|t: Tweet| tweet_text(t))
}

proof fn lemma_frontier_bounds(b: Seq<Seq<char>>, a: Seq<Seq<char>>)
    ensures
        0 <= frontier(b, a) <= b.len(),
        forall|j: int| 0 <= j < frontier(b, a) ==> !a.contains(#[trigger] b[j]),
        frontier(b, a) < b.len() ==> a.contains(b[frontier(b, a)]),
    decreases b.len(),
{
    if b.len() > 0 && !a.contains(b[0]) {
        lemma_frontier_bounds(b.drop_first(), a);
        assert forall|j: int| 0 <= j < frontier(b, a) implies !a.contains(#[trigger] b[j]) by {
            if j > 0 {
                assert(b[j] == b.drop_first()[j - 1]);
            }
        }
    }
}

/// The frontier is the first match: with no match before index `k` and a
/// match at `k`, the frontier is `k`.
proof fn lemma_frontier_first_match(b: Seq<Seq<char>>, a: Seq<Seq<char>>, k: int)
    requires
        0 <= k <= b.len(),
        forall|j: int| 0 <= j < k ==> !a.contains(#[trigger] b[j]),
        k < b.len() ==> a.contains(b[k]),
    ensures
        frontier(b, a) == k,
    decreases k,
{
    if k > 0 {
        assert(!a.contains(b[0]));
        assert forall|j: int| 0 <= j < k - 1 implies !a.contains(#[trigger] b.drop_first()[j]) by {
            assert(b.drop_first()[j] == b[j + 1]);
        }
        if k < b.len() {
            assert(b.drop_first()[k - 1] == b[k]);
        }
        lemma_frontier_first_match(b.drop_first(), a, k - 1);
    }
}

proof fn lemma_texts_push(v: Seq<String>, x: String)
    ensures
        texts(v.push(x)) == texts(v).push(x@),
{
    assert(texts(v.push(x)) =~= texts(v).push(x@));
}

/// Whether `text` equals one of `texts`.
fn contains_text(v: &Vec<String>, text: &String) -> (r: bool)
    ensures
        r == texts(v@).contains(text@),
{
    let mut i: usize = 0;
    while i < v.len()
        invariant
            i <= v.len(),
            forall|j: int| 0 <= j < i ==> v@[j]@ != text@,
        decreases v.len() - i,
    {
        if v[i] == *text {
            assert(texts(v@)[i as int] == text@);
            return true;
        }
        i = i + 1;
    }
    assert forall|j: int| 0 <= j < texts(v@).len() implies texts(v@)[j] != text@ by {
        assert(texts(v@)[j] == v@[j]@);
    }
    false
}

/// The texts of `b` (newest first) that come before the first one that also
/// stands in `a`: all of `b` where none does.
pub fn missing_posts(b: &Vec<String>, a: &Vec<String>) -> (r: Vec<String>)
    ensures
        texts(r@) == missing(texts(b@), texts(a@)),
{
    let mut r: Vec<String> = Vec::new();
    let mut i: usize = 0;
    while i < b.len()
        invariant
            i <= b.len(),
            texts(r@) == texts(b@).take(i as int),
            forall|j: int| 0 <= j < i ==> !texts(a@).contains(#[trigger] texts(b@)[j]),
        decreases b.len() - i,
    {
        if contains_text(a, &b[i]) {
            proof {
                lemma_frontier_first_match(texts(b@), texts(a@), i as int);
            }
            return r;
        }
        let s = b[i].clone();
        proof {
            lemma_texts_push(r@, s);
            assert(texts(b@)[i as int] == b@[i as int]@);
            assert(texts(b@).take(i + 1) =~= texts(b@).take(i as int).push(s@));
        }
        r.push(s);
        assert(texts(r@) =~= texts(b@).take(i + 1));
        i = i + 1;
    }
    proof {
        lemma_frontier_first_match(texts(b@), texts(a@), b.len() as int);
        assert(texts(b@).take(b.len() as int) =~= texts(b@));
    }
    r
}

/// Normalizes each tweet.
fn tweets_get_texts(tweets: &Vec<Tweet>) -> (r: Vec<String>)
    ensures
        texts(r@) == tweet_texts(tweets@),
{
    let mut r: Vec<String> = Vec::new();
    let mut i: usize = 0;
    while i < tweets.len()
        invariant
            i <= tweets.len(),
            texts(r@) == tweet_texts(tweets@).take(i as int),
        decreases tweets.len() - i,
    {
        let t = tweet_get_text(&tweets[i]);
        proof {
            lemma_texts_push(r@, t);
            assert(tweet_texts(tweets@).take(i + 1) =~= tweet_texts(tweets@).take(i as int).push(t@));
        }
        r.push(t);
        assert(texts(r@) =~= tweet_texts(tweets@).take(i + 1));
        i = i + 1;
    }
    assert(tweet_texts(tweets@).take(tweets.len() as int) =~= tweet_texts(tweets@));
    r
}

/// Given the normalized texts of the Mastodon timeline and the tweets of the
/// Twitter timeline, both newest first, the tweets to post on Mastodon and the
/// toots to post on Twitter: on each side, what comes before the first post
/// that the other side already has.
pub fn determine_posts(toot_texts: &Vec<String>, tweets: &Vec<Tweet>) -> (r: StatusUpdates)
    ensures
        texts(r.toots@) == missing(tweet_texts(tweets@), texts(toot_texts@)),
        texts(r.tweets@) == missing(texts(toot_texts@), tweet_texts(tweets@)),
{
    let tweet_texts = tweets_get_texts(tweets);
    let toots = missing_posts(&tweet_texts, toot_texts);
    let tweets = missing_posts(toot_texts, &tweet_texts);
    StatusUpdates { toots, tweets }
}

/// A match at index `k` of `b`, with none before it, makes exactly the posts
/// before `k` missing, whatever follows `k`.
pub proof fn lemma_missing_up_to_first_match(
    b: Seq<Seq<char>>,
    b2: Seq<Seq<char>>,
    a: Seq<Seq<char>>,
    k: int,
)
    requires
        0 <= k < b.len(),
        a.contains(b[k]),
        forall|j: int| 0 <= j < k ==> !a.contains(#[trigger] b[j]),
        k < b2.len(),
        b2.take(k + 1) == b.take(k + 1),
    ensures
        missing(b, a) == b.take(k),
        missing(b2, a) == missing(b, a),
{
    lemma_frontier_first_match(b, a, k);
    assert forall|j: int| 0 <= j <= k implies b2[j] == b[j] by {
        assert(b2.take(k + 1)[j] == b.take(k + 1)[j]);
    }
    lemma_frontier_first_match(b2, a, k);
    assert(b2.take(k) =~= b.take(k));
}

/// Where no post of `b` stands in `a`, all of `b` is missing.
pub proof fn lemma_missing_all_without_match(b: Seq<Seq<char>>, a: Seq<Seq<char>>)
    requires
        forall|j: int| 0 <= j < b.len() ==> !a.contains(#[trigger] b[j]),
    ensures
        missing(b, a) == b,
{
    lemma_frontier_first_match(b, a, b.len() as int);
    assert(b.take(b.len() as int) =~= b);
}

} // verus!
