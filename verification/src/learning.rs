//! Small exercises: arithmetic, string ownership, loops and module paths.

use vstd::prelude::*;

verus! {

/// Does nothing; reached through `door`.
fn open() {
}

/// Does nothing; reached through `door`.
pub fn bla() {
}

/// Opens the door: calls `open` and `bla`, which have no effect.
pub fn door() {
    open();
    bla();
}

/// The two lines that a greeting prints, in order.
pub fn greeting(greet: &str, name: String) -> (lines: (String, String))
    ensures
        lines.0@ == "greetings to "@ + greet@,
        lines.1@ == "greetings to "@ + name@,
{
    let mut first = String::from_str("greetings to ");
    first.append(greet);
    let mut second = String::from_str("greetings to ");
    second.append(name.as_str());
    (first, second)
}

/// Adds two numbers.
pub fn add(n1: i32, n2: i32) -> (sum: i32)
    requires
        i32::MIN <= n1 + n2 <= i32::MAX,
    ensures
        sum == n1 + n2,
{
    n1 + n2
}

/// Takes a string and hands it back unchanged.
pub fn ownership_test(test: String) -> (res: String)
    ensures
        res == test,
{
    test
}

/// Appends "lol" and then "öasdasd" to the string.
pub fn reference_value(test: &mut String)
    ensures
        final(test)@ == old(test)@ + "lol"@ + "öasdasd"@,
{
    test.append("lol");
    test.append("öasdasd");
}

/// Appends "lol lol lol" to the string.
pub fn some_string_change2(s: &mut String)
    ensures
        final(s)@ == old(s)@ + "lol lol lol"@,
{
    s.append("lol lol lol");
}

/// Appends "lol lol lol" to the string and hands the same string back.
pub fn some_string_change3(s: &mut String) -> (res: &mut String)
    ensures
        res@ == old(s)@ + "lol lol lol"@,
        *final(s) == *final(res),
{
    s.append("lol lol lol");
    s
}

/// What the fizzbuzz loop prints for one count.
#[derive(Clone, Copy, Debug, PartialEq, Eq, Structural)]
pub enum FizzBuzz {
    FizzBuzz,
    Fizz,
    Buzz,
    Number(i32),
}

/// Decides what fizzbuzz prints for `count`: "fizzbuzz" for multiples of 15,
/// "fizz" for other multiples of 3, "buzz" for other multiples of 5, and the
/// number itself otherwise.
pub fn fizzbuzz(count: i32) -> (res: FizzBuzz)
    ensures
        count % 15 == 0 ==> res is FizzBuzz,
        count % 15 != 0 && count % 3 == 0 ==> res is Fizz,
        count % 15 != 0 && count % 3 != 0 && count % 5 == 0 ==> res is Buzz,
        count % 3 != 0 && count % 5 != 0 ==> res == FizzBuzz::Number(count),
{
    if count % 15 == 0 {
        FizzBuzz::FizzBuzz
    } else if count % 3 == 0 {
        FizzBuzz::Fizz
    } else if count % 5 == 0 {
        FizzBuzz::Buzz
    } else {
        FizzBuzz::Number(count)
    }
}

/// Index of the first space in `s`, or its length when there is none.
pub open spec fn first_space(s: Seq<char>) -> int
    decreases s.len(),
{
    if s.len() == 0 {
        0
    } else if s[0] == ' ' {
        0
    } else {
        1 + first_space(s.drop_first())
    }
}

proof fn lemma_first_space(s: Seq<char>, i: int)
    requires
        0 <= i <= s.len(),
        forall|j: int| 0 <= j < i ==> s[j] != ' ',
        i == s.len() || s[i] == ' ',
    ensures
        first_space(s) == i,
    decreases s.len(),
{
    if s.len() > 0 && i > 0 {
        assert forall|j: int| 0 <= j < i - 1 implies s.drop_first()[j] != ' ' by {
            assert(s[j + 1] != ' ');
        }
        lemma_first_space(s.drop_first(), i - 1);
    }
}

/// The first word of `s`: everything before its first space, or all of `s`.
pub fn find_first_word(s: &str) -> (word: &str)
    ensures
        word@ == s@.take(first_space(s@)),
{
    let n = s.unicode_len();
    let mut i: usize = 0;
    while i < n
        invariant
            n == s@.len(),
            i <= n,
            forall|j: int| 0 <= j < i ==> s@[j] != ' ',
        decreases n - i,
    {
        if s.get_char(i) == ' ' {
            proof {
                lemma_first_space(s@, i as int);
            }
            return s.substring_char(0, i);
        }
        i += 1;
    }
    proof {
        lemma_first_space(s@, n as int);
        assert(s@.take(n as int) =~= s@);
    }
    s
}

/// A value guarded by a lock in the threading exercise.
pub struct Test {
    pub some_val: i32,
}

impl Test {
    /// A new value, starting at 10.
    pub fn new() -> (t: Test)
        ensures
            t.some_val == 10,
    {
        Test { some_val: 10 }
    }

    /// Replaces the value.
    pub fn update(&mut self, val: i32)
        ensures
            final(self).some_val == val,
    {
        self.some_val = val;
    }
}

/// A person with a first and a last name.
pub struct Person {
    pub first_name: String,
    pub last_name: String,
}

impl Person {
    /// A person with the given names.
    pub fn new(first: &str, last: &str) -> (p: Person)
        ensures
            p.first_name@ == first@,
            p.last_name@ == last@,
    {
        Person { first_name: String::from_str(first), last_name: String::from_str(last) }
    }

    /// The first and the last name, separated by one space.
    pub fn full_name(&self) -> (name: String)
        ensures
            name@ == self.first_name@ + " "@ + self.last_name@,
    {
        let mut name = self.first_name.clone();
        name.append(" ");
        name.append(self.last_name.as_str());
        name
    }

    /// Replaces the last name; the first name stays.
    pub fn set_last_name(&mut self, last: &str)
        ensures
            final(self).first_name == old(self).first_name,
            final(self).last_name@ == last@,
    {
        self.last_name = String::from_str(last);
    }

    /// The two names as a pair, first name first.
    pub fn to_tuple(self) -> (names: (String, String))
        ensures
            names.0 == self.first_name,
            names.1 == self.last_name,
    {
        (self.first_name, self.last_name)
    }
}

} // verus!
