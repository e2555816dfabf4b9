//! The sample code that the code-navigation tests run the language servers on: a
//! `Named` trait, two implementors and a greeting function.
use vstd::prelude::*;
use crate::text::push_char;
use vstd::string::StringExecFns;

verus! {

/// A named entity in the system.
pub trait Named {
    /// The name, as text.
    spec fn name_text(&self) -> Seq<char>;

    fn display_name(&self) -> (r: &str)
        ensures
            r@ == self.name_text(),
    ;
}

/// A user with a name and age.
pub struct User {
    name: String,
    age: u32,
}

impl User {
    pub closed spec fn name_spec(&self) -> Seq<char> {
        self.name@
    }

    pub closed spec fn age_spec(&self) -> u32 {
        self.age
    }

    pub fn new(name: &str, age: u32) -> (r: Self)
        ensures
            r.name_spec() == name@,
            r.age_spec() == age,
    {
        Self { name: String::from_str(name), age }
    }

    /// `Hello, <name>!`
    pub fn greet(&self) -> (r: String)
        ensures
            r@ == seq!['H', 'e', 'l', 'l', 'o', ',', ' '] + self.name_spec() + seq!['!'],
    {
        let mut s = String::new();
        push_char(&mut s, 'H');
        push_char(&mut s, 'e');
        push_char(&mut s, 'l');
        push_char(&mut s, 'l');
        push_char(&mut s, 'o');
        push_char(&mut s, ',');
        push_char(&mut s, ' ');
        s.append(self.name.as_str());
        push_char(&mut s, '!');
        assert(s@ =~= seq!['H', 'e', 'l', 'l', 'o', ',', ' '] + self.name_spec() + seq!['!']);
        s
    }
}

impl Named for User {
    open spec fn name_text(&self) -> Seq<char> {
        self.name_spec()
    }

    fn display_name(&self) -> (r: &str) {
        self.name.as_str()
    }
}

/// An admin wrapping a user.
pub struct Admin {
    user: User,
}

impl Admin {
    pub closed spec fn user_spec(&self) -> User {
        self.user
    }

    /// An admin acting for `user`.
    pub fn for_user(user: User) -> (r: Self)
        ensures
            r.user_spec() == user,
    {
        Admin { user }
    }

    pub fn promote(&self) -> (r: bool)
        ensures
            r,
    {
        true
    }
}

impl Named for Admin {
    open spec fn name_text(&self) -> Seq<char> {
        self.user_spec().name_spec()
    }

    fn display_name(&self) -> (r: &str) {
        self.user.display_name()
    }
}

/// `Hi, <name>!`
pub fn greet_named(entity: &dyn Named) -> (r: String)
    ensures
        r@ == seq!['H', 'i', ',', ' '] + entity.name_text() + seq!['!'],
{
    let mut s = String::new();
    push_char(&mut s, 'H');
    push_char(&mut s, 'i');
    push_char(&mut s, ',');
    push_char(&mut s, ' ');
    s.append(entity.display_name());
    push_char(&mut s, '!');
    assert(s@ =~= seq!['H', 'i', ',', ' '] + entity.name_text() + seq!['!']);
    s
}

} // verus!
