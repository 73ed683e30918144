//! Things that can be summed up in a line of text.

use vstd::prelude::*;
use vstd::string::*;

verus! {

/// A thing with an author that can be summed up in a line.
pub trait Summary {
    /// The line that sums the thing up, as contracts see it.
    spec fn summary(&self) -> Seq<char>;

    /// How the author is named, as contracts see it.
    spec fn author_line(&self) -> Seq<char>;

    /// The line that sums the thing up.
    fn summarize(&self) -> (line: String)
        ensures
            line@ == self.summary(),
    ;

    /// The invitation to read on, the same for every thing.
    fn summarize2(&self) -> (line: String)
        ensures
            line@ == "(Read more...)"@,
    {
        String::from_str("(Read more...)")
    }

    /// How the author is named.
    fn summarize_author(&self) -> (line: String)
        ensures
            line@ == self.author_line(),
    ;

    /// The invitation to read more from the author.
    fn summarize3(&self) -> (line: String)
        ensures
            line@ == "(Read more from "@ + self.author_line() + "...)"@,
    {
        let author = self.summarize_author();
        String::from_str("(Read more from ").concat(author.as_str()).concat("...)")
    }
}

/// An article of a newspaper.
pub struct NewsArticle {
    pub headline: String,
    pub location: String,
    pub author: String,
    pub content: String,
}

impl Summary for NewsArticle {
    open spec fn summary(&self) -> Seq<char> {
        self.headline@ + ", by "@ + self.author@ + " ("@ + self.location@ + ")"@
    }

    open spec fn author_line(&self) -> Seq<char> {
        self.author@
    }

    fn summarize(&self) -> (line: String) {
        String::from_str(self.headline.as_str()).concat(", by ").concat(
            self.author.as_str(),
        ).concat(" (").concat(self.location.as_str()).concat(")")
    }

    fn summarize_author(&self) -> (line: String) {
        self.author.clone()
    }
}

/// A short public message.
pub struct Tweet {
    pub username: String,
    pub content: String,
    pub reply: bool,
    pub retweet: bool,
}

impl Summary for Tweet {
    open spec fn summary(&self) -> Seq<char> {
        self.username@ + ": "@ + self.content@
    }

    open spec fn author_line(&self) -> Seq<char> {
        "@"@ + self.username@
    }

    fn summarize(&self) -> (line: String) {
        String::from_str(self.username.as_str()).concat(": ").concat(self.content.as_str())
    }

    fn summarize_author(&self) -> (line: String) {
        String::from_str("@").concat(self.username.as_str())
    }
}

/// The news line for `item`.
pub fn notify<T: Summary>(item: &T) -> (line: String)
    ensures
        line@ == "Breaking news! "@ + item.summary(),
{
    let summary = item.summarize();
    String::from_str("Breaking news! ").concat(summary.as_str())
}

/// The news line for `item`.
pub fn notify2<T: Summary>(item: &T) -> (line: String)
    ensures
        line@ == "Breaking news! "@ + item.summary(),
{
    notify(item)
}

/// The news line for two items, which may be of different types.
pub fn notify3<T: Summary, U: Summary>(item1: &T, item2: &U) -> (line: String)
    ensures
        line@ == "Breaking news! "@ + item1.summary() + ", "@ + item2.summary(),
{
    let first = item1.summarize();
    let second = item2.summarize();
    String::from_str("Breaking news! ").concat(first.as_str()).concat(", ").concat(
        second.as_str(),
    )
}

/// The news line for two items of one type.
pub fn notify4<T: Summary>(item1: &T, item2: &T) -> (line: String)
    ensures
        line@ == "Breaking news! "@ + item1.summary() + ", "@ + item2.summary(),
{
    notify3(item1, item2)
}

/// The number five, whatever `t` and `u` are.
pub fn some_function<T: std::fmt::Display + Clone, U: Clone + std::fmt::Debug>(
    t: &T,
    u: &U,
) -> (out: i32)
    ensures
        out == 5,
{
    let out: i32 = 5;
    out
}

/// The number five, whatever `t` and `u` are.
pub fn some_function2<T, U>(t: &T, u: &U) -> (out: i32)
    where
        T: std::fmt::Display + Clone,
        U: Clone + std::fmt::Debug,
    ensures
        out == 5,
{
    let out: i32 = 5;
    out
}

/// Something that can be summed up: a message by `horse_ebooks`.
pub fn returns_summarizable() -> (item: impl Summary)
    ensures
        item.summary() == "horse_ebooks"@ + ": "@ + "of course, as you know, people"@,
        item.author_line() == "@"@ + "horse_ebooks"@,
{
    Tweet {
        username: String::from_str("horse_ebooks"),
        content: String::from_str("of course, as you know, people"),
        reply: false,
        retweet: false,
    }
}

} // verus!
