//! Turns posts of either platform into plain text that can be compared.
use vstd::prelude::*;
use crate::text::{replace, replace_all};

verus! {

/// A shortened link in a tweet, with the address it stands for.
pub struct UrlEntity {
    pub url: String,
    pub expanded_url: String,
}

/// The tweet that a retweet repeats.
pub struct Retweet {
    /// Handle of the original author, without the `@`.
    pub screen_name: String,
    pub text: String,
    pub urls: Vec<UrlEntity>,
}

/// A tweet as the timeline hands it over.
pub struct Tweet {
    pub text: String,
    pub urls: Vec<UrlEntity>,
    pub retweeted_status: Option<Retweet>,
}

/// `text` with the shortened links of `urls` expanded, the first entity first.
pub open spec fn expand_links(text: Seq<char>, urls: Seq<UrlEntity>) -> Seq<char>
    decreases urls.len(),
{
    if urls.len() == 0 {
        text
    } else {
        replace_all(
            expand_links(text, urls.drop_last()),
            urls.last().url@,
            urls.last().expanded_url@,
        )
    }
}

pub open spec fn retweet_prefix() -> Seq<char> {
    seq!['R', 'T', ' ', '@']
}

pub open spec fn author_separator() -> Seq<char> {
    seq![':', ' ']
}

/// The comparable text of a tweet: a retweet reads `RT @<author>: <original text>`.
pub open spec fn tweet_text(t: Tweet) -> Seq<char> {
    match t.retweeted_status {
        None => expand_links(t.text@, t.urls@),
        Some(rt) => retweet_prefix() + rt.screen_name@ + author_separator() + expand_links(
            rt.text@,
            rt.urls@,
        ),
    }
}

/// The markup for a line break, in both of the forms Mastodon writes.
pub open spec fn break_tags() -> (Seq<char>, Seq<char>) {
    (seq!['<', 'b', 'r', ' ', '/', '>'], seq!['<', 'b', 'r', '>'])
}

/// Toot markup with its line-break tags turned into newlines.
pub open spec fn toot_breaks_as_newlines(content: Seq<char>) -> Seq<char> {
    replace_all(replace_all(content, break_tags().0, seq!['\n']), break_tags().1, seq!['\n'])
}

/// The fragments of text, joined with nothing between them.
pub open spec fn joined(fragments: Seq<Seq<char>>) -> Seq<char>
    decreases fragments.len(),
{
    if fragments.len() == 0 {
        Seq::empty()
    } else {
        joined(fragments.drop_last()) + fragments.last()
    }
}

/// `text` with each link of `urls` expanded in turn.
pub fn tweet_unshorten(text: &String, urls: &Vec<UrlEntity>) -> (r: String)
    ensures
        r@ == expand_links(text@, urls@),
{
    let mut r = text.clone();
    let mut i: usize = 0;
    while i < urls.len()
        invariant
            i <= urls.len(),
            r@ == expand_links(text@, urls@.take(i as int)),
        decreases urls.len() - i,
    {
        assert(urls@.take(i + 1).drop_last() =~= urls@.take(i as int));
        r = replace(r.as_str(), urls[i].url.as_str(), urls[i].expanded_url.as_str());
        i = i + 1;
    }
    assert(urls@.take(urls.len() as int) =~= urls@);
    r
}

/// The comparable text of a tweet: links expanded, and a retweet written as
/// `RT @<author>: ` followed by the original tweet's text.
pub fn tweet_get_text(tweet: &Tweet) -> (r: String)
    ensures
        r@ == tweet_text(*tweet),
{
    match &tweet.retweeted_status {
        None => tweet_unshorten(&tweet.text, &tweet.urls),
        Some(rt) => {
            let body = tweet_unshorten(&rt.text, &rt.urls);
            let mut out: Vec<char> = crate::text::chars_of("RT @");
            proof {
                reveal_strlit("RT @");
            }
            assert(out@ =~= retweet_prefix());
            let name = crate::text::chars_of(rt.screen_name.as_str());
            let sep = crate::text::chars_of(": ");
            proof {
                reveal_strlit(": ");
            }
            let b = crate::text::chars_of(body.as_str());
            let ghost start = out@;
            crate::text::push_all(&mut out, &name);
            crate::text::push_all(&mut out, &sep);
            crate::text::push_all(&mut out, &b);
            assert(out@ =~= retweet_prefix() + rt.screen_name@ + author_separator() + body@);
            crate::text::string_from_chars(&out)
        },
    }
}

/// Toot markup with `<br />` and `<br>` turned into newlines, ready for its
/// remaining tags to be stripped.
pub fn toot_break_lines(content: &str) -> (r: String)
    ensures
        r@ == toot_breaks_as_newlines(content@),
{
    proof {
        reveal_strlit("<br />");
        reveal_strlit("<br>");
        reveal_strlit("\n");
        assert("<br />"@ =~= break_tags().0);
        assert("<br>"@ =~= break_tags().1);
        assert("\n"@ =~= seq!['\n']);
    }
    let once = replace(content, "<br />", "\n");
    replace(once.as_str(), "<br>", "\n")
}

/// The comparable text of a toot: the text fragments left once its markup is
/// stripped, joined with nothing between them.
pub fn toot_get_text(fragments: &Vec<String>) -> (r: String)
    ensures
        r@ == joined(fragments@.map_values(|f: String| f@)),
{
    let mut out: Vec<char> = Vec::new();
    let mut i: usize = 0;
    while i < fragments.len()
        invariant
            i <= fragments.len(),
            out@ == joined(fragments@.take(i as int).map_values(|f: String| f@)),
        decreases fragments.len() - i,
    {
        let f = crate::text::chars_of(fragments[i].as_str());
        crate::text::push_all(&mut out, &f);
        assert(fragments@.take(i + 1).map_values(|f: String| f@).drop_last() =~= fragments@.take(
            i as int,
        ).map_values(|f: String| f@));
        i = i + 1;
    }
    assert(fragments@.take(fragments.len() as int) =~= fragments@);
    crate::text::string_from_chars(&out)
}

/// Normalizing is a function of the post alone: the same tweet always gives
/// the same text, and so do the same toot markup and the same toot fragments.
pub proof fn lemma_normalization_deterministic(
    t1: Tweet,
    t2: Tweet,
    markup1: Seq<char>,
    markup2: Seq<char>,
    fragments1: Seq<Seq<char>>,
    fragments2: Seq<Seq<char>>,
)
    requires
        t1 == t2,
        markup1 == markup2,
        fragments1 == fragments2,
    ensures
        tweet_text(t1) == tweet_text(t2),
        toot_breaks_as_newlines(markup1) == toot_breaks_as_newlines(markup2),
        joined(fragments1) == joined(fragments2),
{
}

} // verus!
