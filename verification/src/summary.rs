//! Summaries of news items, through a trait with default methods.

use vstd::prelude::*;

verus! {

/// Something that can be summed up in one line of text.
pub trait Summary {
    /// The text that `summarize` returns.
    spec fn summary_text(&self) -> Seq<char>;

    /// The one-line summary.
    fn summarize(&self) -> (s: String)
        ensures
            s@ == self.summary_text(),
    ;

    /// A placeholder text for types that say nothing more.
    fn summarize_lol(&self) -> (s: String)
        ensures
            s@ == "implement your stuff!, 🤓🤓"@,
    {
        String::from_str("implement your stuff!, 🤓🤓")
    }

    /// The summary framed as "this is the summary: |...|".
    fn summarize_whatever(&self) -> (s: String)
        ensures
            s@ == "this is the summary: |"@ + self.summary_text() + "|"@,
    {
        let mut s = String::from_str("this is the summary: |");
        let inner = self.summarize();
        s.append(inner.as_str());
        s.append("|");
        s
    }
}

/// A news article with a title and a description.
pub struct NewsArticle {
    pub title: String,
    pub desc: String,
}

impl Summary for NewsArticle {
    open spec fn summary_text(&self) -> Seq<char> {
        "title: "@ + self.title@ + ", desc: "@ + self.desc@
    }

    fn summarize(&self) -> (s: String) {
        let mut s = String::from_str("title: ");
        s.append(self.title.as_str());
        s.append(", desc: ");
        s.append(self.desc.as_str());
        s
    }
}

impl NewsArticle {
    /// The text that displaying the article shows: its summary.
    pub fn to_string(&self) -> (s: String)
        ensures
            s@ == self.summary_text(),
    {
        self.summarize()
    }
}

/// A short message.
pub struct Tweet {
    pub content: String,
}

impl Summary for Tweet {
    open spec fn summary_text(&self) -> Seq<char> {
        "tweet: "@ + self.content@
    }

    fn summarize(&self) -> (s: String) {
        let mut s = String::from_str("tweet: ");
        s.append(self.content.as_str());
        s
    }
}

/// The summary of `item`, framed as "do_something_with_summary: |...|".
pub fn do_something_with_summary(item: &impl Summary) -> (s: String)
    ensures
        s@ == "do_something_with_summary: |"@ + item.summary_text() + "|"@,
{
    let mut s = String::from_str("do_something_with_summary: |");
    let inner = item.summarize();
    s.append(inner.as_str());
    s.append("|");
    s
}

/// Both summaries, framed one after the other.
pub fn crazy_trait<T: Summary>(item1: &T, item2: &T) -> (s: String)
    ensures
        s@ == "do_something_with_summary: |"@ + item1.summary_text() + "| and again: |"@
            + item2.summary_text() + "|"@,
{
    let mut s = String::from_str("do_something_with_summary: |");
    let first = item1.summarize();
    s.append(first.as_str());
    s.append("| and again: |");
    let second = item2.summarize();
    s.append(second.as_str());
    s.append("|");
    s
}

/// Something to summarize: a tweet whose content is "bla bla".
pub fn give_me_a_trait() -> (t: impl Summary)
    ensures
        t.summary_text() == "tweet: "@ + "bla bla"@,
{
    Tweet { content: String::from_str("bla bla") }
}

} // verus!
