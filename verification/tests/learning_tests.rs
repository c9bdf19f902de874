use rustray::learning::{
    add, door, find_first_word, fizzbuzz, greeting, ownership_test, reference_value,
    some_string_change2, some_string_change3, FizzBuzz, Person, Test,
};
use rustray::summary::{crazy_trait, do_something_with_summary, give_me_a_trait, NewsArticle, Summary, Tweet};

#[test]
fn arithmetic_and_greetings() {
    assert_eq!(add(1, 2), 3);
    assert_eq!(add(-5, 2), -3);
    let (a, b) = greeting("lol", "lol2".to_string());
    assert_eq!(a, "greetings to lol");
    assert_eq!(b, "greetings to lol2");
    door();
}

#[test]
fn string_ownership_exercises() {
    assert_eq!(ownership_test("tada".to_string()), "tada");
    let mut s = String::from("lol");
    reference_value(&mut s);
    assert_eq!(s, "lollolöasdasd");
    let mut s3 = String::from("bla bla bla");
    some_string_change2(&mut s3);
    assert_eq!(s3, "bla bla blalol lol lol");
    let r = some_string_change3(&mut s3);
    assert_eq!(r, "bla bla blalol lol lollol lol lol");
}

#[test]
fn fizzbuzz_cases() {
    assert_eq!(fizzbuzz(0), FizzBuzz::FizzBuzz);
    assert_eq!(fizzbuzz(15), FizzBuzz::FizzBuzz);
    assert_eq!(fizzbuzz(9), FizzBuzz::Fizz);
    assert_eq!(fizzbuzz(10), FizzBuzz::Buzz);
    assert_eq!(fizzbuzz(7), FizzBuzz::Number(7));
    assert_eq!(fizzbuzz(-3), FizzBuzz::Fizz);
}

#[test]
fn first_word() {
    assert_eq!(find_first_word("hello world"), "hello");
    assert_eq!(find_first_word("hello"), "hello");
    assert_eq!(find_first_word(" lead"), "");
    assert_eq!(find_first_word(""), "");
}

#[test]
fn people_and_values() {
    let mut p = Person::new("John", "Wick");
    assert_eq!(p.full_name(), "John Wick");
    p.set_last_name("WickyWick");
    assert_eq!(p.full_name(), "John WickyWick");
    assert_eq!(p.to_tuple(), ("John".to_string(), "WickyWick".to_string()));
    let mut t = Test::new();
    assert_eq!(t.some_val, 10);
    t.update(11);
    assert_eq!(t.some_val, 11);
}

#[test]
fn summaries() {
    let article = NewsArticle { title: "Super News".to_string(), desc: "bla bla bla bla".to_string() };
    let tweet = Tweet { content: "zwitscher zwitscher".to_string() };
    assert_eq!(article.summarize(), "title: Super News, desc: bla bla bla bla");
    assert_eq!(tweet.summarize(), "tweet: zwitscher zwitscher");
    assert_eq!(tweet.summarize_lol(), "implement your stuff!, 🤓🤓");
    assert_eq!(
        article.summarize_whatever(),
        "this is the summary: |title: Super News, desc: bla bla bla bla|"
    );
    assert_eq!(
        do_something_with_summary(&tweet),
        "do_something_with_summary: |tweet: zwitscher zwitscher|"
    );
    assert_eq!(
        crazy_trait(&tweet, &tweet),
        "do_something_with_summary: |tweet: zwitscher zwitscher| and again: |tweet: zwitscher zwitscher|"
    );
    assert_eq!(give_me_a_trait().summarize(), "tweet: bla bla");
    assert_eq!(article.to_string(), "title: Super News, desc: bla bla bla bla");
}
