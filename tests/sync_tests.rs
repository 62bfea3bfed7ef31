use mastodon_twitter_sync::normalize::{
    toot_break_lines, toot_get_text, tweet_get_text, tweet_unshorten, Retweet, Tweet, UrlEntity,
};
use mastodon_twitter_sync::sync::{determine_posts, missing_posts};
use mastodon_twitter_sync::text::{chars_of, replace};

fn s(v: &[&str]) -> Vec<String> {
    v.iter().map(|x| x.to_string()).collect()
}

fn plain_tweet(text: &str) -> Tweet {
    Tweet { text: text.to_string(), urls: Vec::new(), retweeted_status: None }
}

#[test]
fn replace_matches_std_replace() {
    assert_eq!(replace("aaa", "aa", "b"), "aaa".replace("aa", "b"));
    assert_eq!(replace("aaa", "aa", "b"), "ba");
    assert_eq!(replace("a<br>b<br>", "<br>", "\n"), "a\nb\n");
    assert_eq!(replace("ab", "", "x"), "xaxbx");
    assert_eq!(replace("", "", "x"), "x");
    assert_eq!(replace("", "a", "x"), "");
    assert_eq!(replace("héllo wörld", "ö", "o"), "héllo world");
}

#[test]
fn chars_of_keeps_order() {
    assert_eq!(chars_of("añb"), vec!['a', 'ñ', 'b']);
    assert!(chars_of("").is_empty());
}

#[test]
fn toot_line_breaks_become_newlines() {
    assert_eq!(toot_break_lines("<p>one<br />two<br>three</p>"), "<p>one\ntwo\nthree</p>");
    assert_eq!(toot_break_lines("no breaks"), "no breaks");
}

#[test]
fn toot_fragments_are_joined_without_separator() {
    assert_eq!(toot_get_text(&s(&["Hel", "lo", " World!"])), "Hello World!");
    assert_eq!(toot_get_text(&Vec::new()), "");
}

#[test]
fn tweet_links_are_expanded() {
    let urls = vec![
        UrlEntity { url: "https://t.co/a".to_string(), expanded_url: "https://example.org/a".to_string() },
        UrlEntity { url: "https://t.co/b".to_string(), expanded_url: "https://example.org/b".to_string() },
    ];
    let text = "see https://t.co/a and https://t.co/b and https://t.co/a".to_string();
    assert_eq!(
        tweet_unshorten(&text, &urls),
        "see https://example.org/a and https://example.org/b and https://example.org/a"
    );
    let tweet = Tweet { text, urls, retweeted_status: None };
    assert_eq!(
        tweet_get_text(&tweet),
        "see https://example.org/a and https://example.org/b and https://example.org/a"
    );
}

#[test]
fn retweet_with_link_is_framed_and_expanded() {
    let tweet = Tweet {
        text: "RT @origauthor: look https://t.co/x".to_string(),
        urls: Vec::new(),
        retweeted_status: Some(Retweet {
            screen_name: "origauthor".to_string(),
            text: "look https://t.co/x".to_string(),
            urls: vec![UrlEntity {
                url: "https://t.co/x".to_string(),
                expanded_url: "https://example.com/long/path".to_string(),
            }],
        }),
    };
    assert_eq!(tweet_get_text(&tweet), "RT @origauthor: look https://example.com/long/path");
}

#[test]
fn normalizing_twice_gives_the_same_text() {
    let tweet = Tweet {
        text: "x https://t.co/q".to_string(),
        urls: vec![UrlEntity { url: "https://t.co/q".to_string(), expanded_url: "https://q.example".to_string() }],
        retweeted_status: None,
    };
    assert_eq!(tweet_get_text(&tweet), tweet_get_text(&tweet));
    assert_eq!(toot_break_lines("a<br>b"), toot_break_lines("a<br>b"));
}

#[test]
fn matched_newest_post_means_nothing_to_post() {
    let toots = s(&["hello world"]);
    let tweets = vec![plain_tweet("hello world"), plain_tweet("older post")];
    let posts = determine_posts(&toots, &tweets);
    assert!(posts.toots.is_empty());
    assert!(posts.tweets.is_empty());
}

#[test]
fn posts_before_the_frontier_are_missing() {
    let a = s(&["c", "x"]);
    let b = s(&["new1", "new2", "x", "old-unsynced"]);
    assert_eq!(missing_posts(&b, &a), s(&["new1", "new2"]));
    let b2 = s(&["new1", "new2", "x", "something else", "more"]);
    assert_eq!(missing_posts(&b2, &a), s(&["new1", "new2"]));
}

#[test]
fn no_match_means_everything_is_missing() {
    let a = s(&["p", "q"]);
    let b = s(&["r", "s", "t"]);
    assert_eq!(missing_posts(&b, &a), b);
    assert!(missing_posts(&Vec::new(), &a).is_empty());
    assert_eq!(missing_posts(&b, &Vec::new()), b);
}

#[test]
fn both_directions_are_computed() {
    let toots = s(&["toot new", "shared", "toot old"]);
    let tweets = vec![plain_tweet("tweet new"), plain_tweet("tweet newer"), plain_tweet("shared")];
    let posts = determine_posts(&toots, &tweets);
    assert_eq!(posts.toots, s(&["tweet new", "tweet newer"]));
    assert_eq!(posts.tweets, s(&["toot new"]));
}
