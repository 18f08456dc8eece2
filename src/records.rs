//! Two plain record types: a book and a person.
use vstd::prelude::*;

verus! {

/// A book, described by its page count and a rating out of five.
pub struct Book {
    pub pages: u32,
    pub rating: u8,
}

impl Book {
    /// A book with the given page count and rating.
    pub fn new(pages: u32, rating: u8) -> (r: Self)
        ensures
            r.pages == pages,
            r.rating == rating,
    {
        Self { pages, rating }
    }
}

/// A person, described by a name and an age in years.
pub struct Person {
    pub name: String,
    pub age: u8,
}

impl Person {
    /// A person with a copy of `name` and the given age.
    pub fn new(name: &str, age: u8) -> (r: Person)
        ensures
            r.name@ == name@,
            r.age == age,
    {
        broadcast use vstd::string::to_string_from_display_ensures_for_str;

        Person { name: name.to_string(), age }
    }
}

} // verus!
