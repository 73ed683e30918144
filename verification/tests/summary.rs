use workbook::summary::{
    notify, notify2, notify3, notify4, returns_summarizable, some_function, some_function2,
    NewsArticle, Summary, Tweet,
};

fn tweet() -> Tweet {
    Tweet {
        username: String::from("horse_ebooks"),
        content: String::from("of course, as you know, people"),
        reply: false,
        retweet: false,
    }
}

fn article() -> NewsArticle {
    NewsArticle {
        headline: String::from("Penguins win the Stanley Cup Championship!"),
        location: String::from("Pittsburgh, PA, USA"),
        author: String::from("Iceburgh"),
        content: String::from(
            "The Pittsburgh Penguins once again are the best hockey team in the NHL.",
        ),
    }
}

#[test]
fn tweet_is_summed_up_by_name_and_content() {
    assert_eq!(
        "horse_ebooks: of course, as you know, people",
        tweet().summarize()
    );
    assert_eq!("@horse_ebooks", tweet().summarize_author());
    assert_eq!("(Read more...)", tweet().summarize2());
    assert_eq!("(Read more from @horse_ebooks...)", tweet().summarize3());
}

#[test]
fn article_is_summed_up_by_headline_author_and_place() {
    assert_eq!(
        "Penguins win the Stanley Cup Championship!, by Iceburgh (Pittsburgh, PA, USA)",
        article().summarize()
    );
    assert_eq!("Iceburgh", article().summarize_author());
    assert_eq!("(Read more...)", article().summarize2());
    assert_eq!("(Read more from Iceburgh...)", article().summarize3());
}

#[test]
fn news_lines_start_with_breaking_news() {
    let expected = "Breaking news! horse_ebooks: of course, as you know, people";
    assert_eq!(expected, notify(&tweet()));
    assert_eq!(expected, notify2(&tweet()));
    assert_eq!(
        "Breaking news! horse_ebooks: of course, as you know, people, \
         Penguins win the Stanley Cup Championship!, by Iceburgh (Pittsburgh, PA, USA)",
        notify3(&tweet(), &article())
    );
    assert_eq!(
        "Breaking news! horse_ebooks: of course, as you know, people, \
         horse_ebooks: of course, as you know, people",
        notify4(&tweet(), &tweet())
    );
}

#[test]
fn returned_item_can_be_summed_up() {
    let item = returns_summarizable();
    assert_eq!(
        "horse_ebooks: of course, as you know, people",
        item.summarize()
    );
    assert_eq!("@horse_ebooks", item.summarize_author());
}

#[test]
fn some_functions_return_five() {
    assert_eq!(5, some_function(&1, &"two"));
    assert_eq!(5, some_function2(&String::from("one"), &2.5));
}
