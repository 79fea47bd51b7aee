//! Things that can be summarized.
use vstd::prelude::*;
use vstd::string::StringExecFns;

verus! {

/// The summary that an item gets when it offers nothing better: a pointer to its author.
pub open spec fn read_more_from(author: Seq<char>) -> Seq<char> {
    "(Read more from "@ + author + "...)"@
}

/// An author's name in the form in which summaries give it.
pub open spec fn handle(name: Seq<char>) -> Seq<char> {
    "@"@ + name
}

/// An item with an author, of which a one-line summary can be had.
pub trait Summary {
    /// The author of the item, in the form in which summaries name it.
    fn summarize_author(&self) -> (line: String);

    /// A one-line summary. Unless an item has its own, it points to the
    /// author, named as `summarize_author` names it.
    fn summarize(&self) -> (line: String)
        default_ensures
            exists|author: String| #[trigger]
                call_ensures(Self::summarize_author, (self,), author) && line@ == read_more_from(
                    author@,
                ),
    {
        let mut line = String::from_str("(Read more from ");
        let author = self.summarize_author();
        line.append(author.as_str());
        line.append("...)");
        line
    }
}

/// A news article.
#[derive(Debug, Clone, PartialEq, Eq)]
pub struct NewsArticle {
    pub headline: String,
    pub author: String,
}

/// A short post.
#[derive(Debug, Clone, PartialEq, Eq)]
pub struct Tweet {
    pub username: String,
    pub content: String,
}

impl Summary for NewsArticle {
    fn summarize_author(&self) -> (line: String)
        ensures
            line@ == handle(self.author@),
    {
        let mut line = String::from_str("@");
        line.append(self.author.as_str());
        line
    }
}

impl Summary for Tweet {
    fn summarize_author(&self) -> (line: String)
        ensures
            line@ == handle(self.username@),
    {
        let mut line = String::from_str("@");
        line.append(self.username.as_str());
        line
    }

    /// A post is short enough to be its own summary.
    fn summarize(&self) -> (line: String)
        ensures
            line@ == self.username@ + ": "@ + self.content@,
    {
        let mut line = self.username.clone();
        line.append(": ");
        line.append(self.content.as_str());
        line
    }
}

/// Either of the two kinds of item that this library can summarize.
#[derive(Debug, Clone, PartialEq, Eq)]
pub enum Summarizable {
    Article(NewsArticle),
    Post(Tweet),
}

impl Summary for Summarizable {
    /// The author of the item inside.
    fn summarize_author(&self) -> (line: String)
        ensures
            line@ == (match self {
                Summarizable::Article(article) => handle(article.author@),
                Summarizable::Post(tweet) => handle(tweet.username@),
            }),
    {
        match self {
            Summarizable::Article(article) => article.summarize_author(),
            Summarizable::Post(tweet) => tweet.summarize_author(),
        }
    }

    /// The summary of the item inside.
    fn summarize(&self) -> (line: String)
        ensures
            line@ == (match self {
                Summarizable::Article(article) => read_more_from(handle(article.author@)),
                Summarizable::Post(tweet) => tweet.username@ + ": "@ + tweet.content@,
            }),
    {
        match self {
            Summarizable::Article(article) => article.summarize(),
            Summarizable::Post(tweet) => tweet.summarize(),
        }
    }
}

/// The line that breaks the news of `item`: the words `Breaking news!` and
/// then the summary that the item gives of itself.
pub fn notification<T: Summary>(item: &T) -> (line: String)
    ensures
        exists|summary: String| #[trigger]
            call_ensures(T::summarize, (item,), summary) && line@ == "Breaking news! "@
                + summary@,
{
    let summary = item.summarize();
    let mut line = String::from_str("Breaking news! ");
    line.append(summary.as_str());
    line
}

/// Whether `item` is the one that goes with `switch`: the article about the
/// penguins if the switch is on, the post of the horse if it is off.
pub open spec fn is_sample(item: Summarizable, switch: bool) -> bool {
    match item {
        Summarizable::Article(article) => {
            &&& switch
            &&& article.headline@ == "Penguins win the Stanley Cup Championship!"@
            &&& article.author@ == "Iceburgh"@
        },
        Summarizable::Post(tweet) => {
            &&& !switch
            &&& tweet.username@ == "horse_ebooks"@
            &&& tweet.content@ == "of course, as you probably already know, people"@
        },
    }
}

/// Something to summarize: a certain article if `switch` is on, a certain post if not.
pub fn returns_summarizable(switch: bool) -> (item: Summarizable)
    ensures
        is_sample(item, switch),
{
    if switch {
        Summarizable::Article(
            NewsArticle {
                headline: String::from_str("Penguins win the Stanley Cup Championship!"),
                author: String::from_str("Iceburgh"),
            },
        )
    } else {
        Summarizable::Post(
            Tweet {
                username: String::from_str("horse_ebooks"),
                content: String::from_str("of course, as you probably already know, people"),
            },
        )
    }
}

} // verus!
