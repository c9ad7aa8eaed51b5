//! A describable capability with a default method, a printable capability
//! that extends it, a person record implementing both, and the three ways of
//! handing a describable value around: by reference, by generic copy, and
//! behind an opaque capability-only return type.

use vstd::prelude::*;
use vstd::pervasive::cloned;
use vstd::string::StringExecFns;
use crate::decimal::{dec_nat, push_dec_u32};

verus! {

/// What `describe` says of an entity with the given name and age.
pub open spec fn description_of(name: Seq<char>, age: nat) -> Seq<char> {
    name + " is "@ + dec_nat(age) + " years old"@
}

/// The capability of describing oneself in a line of text. `describe` must
/// be implemented; `default_description` has a default body that every
/// implementor here keeps.
pub trait Describable {
    /// The description this value answers with.
    spec fn spec_describe(&self) -> Seq<char>;

    fn describe(&self) -> (r: String)
        ensures
            r@ == self.spec_describe(),
    ;

    fn default_description(&self) -> (r: String)
        ensures
            r@ == "This is default functions"@,
    {
        crate::text::to_owned_text("This is default functions")
    }
}

/// A capability that requires `Describable` and adds a default method for
/// the line that printing a value emits: the description itself.
pub trait Printable: Describable {
    fn print_line(&self) -> (r: String)
        ensures
            r@ == self.spec_describe(),
    {
        self.describe()
    }
}

/// A named entity with an age. The fields stay hidden; the record is reached
/// through its constructor and its capabilities.
pub struct Person {
    name: String,
    age: u32,
}

impl Person {
    pub fn new(name: String, age: u32) -> (p: Person)
        ensures
            p.spec_describe() == description_of(name@, age as nat),
    {
        Person { name, age }
    }
}

impl Clone for Person {
    /// An independent copy that shares no mutable state with the original.
    fn clone(&self) -> (r: Self)
        ensures
            r == *self,
    {
        Person { name: self.name.clone(), age: self.age }
    }
}

impl Describable for Person {
    closed spec fn spec_describe(&self) -> Seq<char> {
        description_of(self.name@, self.age as nat)
    }

    fn describe(&self) -> (r: String) {
        let mut r = self.name.clone();
        r.append(" is ");
        push_dec_u32(&mut r, self.age);
        r.append(" years old");
        proof {
            assert(r@ =~= description_of(self.name@, self.age as nat));
        }
        r
    }
}

impl Printable for Person {}

/// One shared call site that describes any describable value handed to it
/// by reference.
pub fn output_description<T: Describable>(item: &T) -> (r: String)
    ensures
        r@ == item.spec_describe(),
{
    item.describe()
}

/// Duplicates the item and describes the duplicate, under a fixed label.
pub fn some_function<T: Describable + Clone>(item: T) -> (r: String)
    ensures
        exists|c: T|
            #[trigger] cloned::<T>(item, c) && r@ == "Description: "@ + c.spec_describe(),
{
    let item_copy = item.clone();
    let line = item_copy.describe();
    let r = crate::text::labeled_line("Description: ", line.as_str());
    proof {
        assert(cloned::<T>(item, item_copy) && r@ == "Description: "@
            + item_copy.spec_describe());
    }
    r
}

/// A concrete person handed out behind the describable capability alone:
/// the caller can ask for the description and nothing else.
pub fn return_description() -> (r: impl Describable)
    ensures
        r.spec_describe() == "Lisa is 18 years old"@,
{
    let p = Person::new(crate::text::to_owned_text("Lisa"), 18);
    proof {
        reveal_strlit("Lisa");
        reveal_strlit(" is ");
        reveal_strlit(" years old");
        reveal_strlit("Lisa is 18 years old");
        reveal_with_fuel(dec_nat, 2);
        assert(dec_nat(18) =~= seq!['1', '8']);
        assert(p.spec_describe() =~= "Lisa is 18 years old"@);
    }
    p
}

} // verus!
