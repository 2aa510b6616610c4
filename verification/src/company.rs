//! Personnel records: a plain struct with a builder-style setter.

use vstd::prelude::*;

verus! {

broadcast use vstd::string::to_string_from_display_ensures_for_str;

/// A person, identified by name, age and mail address.
#[derive(Debug, Clone, PartialEq, Eq)]
pub struct Person {
    pub name: String,
    pub age: u8,
    pub mail: String,
}

impl Person {
    pub fn new(name: &str, age: u8, mail: &str) -> (p: Person)
        ensures
            p.name@ == name@,
            p.age == age,
            p.mail@ == mail@,
    {
        Person { name: name.to_string(), age, mail: mail.to_string() }
    }

    /// Replaces the name, keeping age and mail.
    pub fn with_name(self, name: &str) -> (p: Person)
        ensures
            p.name@ == name@,
            p.age == self.age,
            p.mail@ == self.mail@,
    {
        let mut p = self;
        p.name = name.to_string();
        p
    }
}

impl Default for Person {
    /// The unknown person: placeholder name and mail, age zero.
    fn default() -> (p: Person)
        ensures
            p.name@ == "Unknown"@,
            p.age == 0,
            p.mail@ == "Unknown"@,
    {
        Person { name: "Unknown".to_string(), age: 0, mail: "Unknown".to_string() }
    }
}

} // verus!
