use basics::describe::{output_description, return_description, some_function, Describable, Person, Printable};

#[test]
fn person_describes_name_and_age() {
    let alice = Person::new(String::from("Alice"), 30);
    assert_eq!(alice.describe(), "Alice is 30 years old");
    let bob = Person::new(String::from("Bob"), 25);
    assert_eq!(bob.describe(), "Bob is 25 years old");
}

#[test]
fn person_with_age_zero_describes() {
    let p = Person::new(String::from("Zo"), 0);
    assert_eq!(p.describe(), "Zo is 0 years old");
}

#[test]
fn default_description_is_the_fixed_literal() {
    let alice = Person::new(String::from("Alice"), 30);
    assert_eq!(alice.default_description(), "This is default functions");
    let bob = Person::new(String::from("Bob"), 25);
    assert_eq!(bob.default_description(), "This is default functions");
}

#[test]
fn output_description_describes_by_reference() {
    let alice = Person::new(String::from("Alice"), 30);
    assert_eq!(output_description(&alice), "Alice is 30 years old");
    assert_eq!(alice.describe(), "Alice is 30 years old");
}

#[test]
fn some_function_describes_a_duplicate() {
    let alice = Person::new(String::from("Alice"), 30);
    assert_eq!(some_function(alice.clone()), "Description: Alice is 30 years old");
    assert_eq!(alice.describe(), "Alice is 30 years old");
}

#[test]
fn returned_describable_says_lisa() {
    let value = return_description();
    assert_eq!(value.describe(), "Lisa is 18 years old");
}

#[test]
fn printable_line_is_the_description() {
    let bob = Person::new(String::from("Bob"), 25);
    assert_eq!(bob.print_line(), "Bob is 25 years old");
}
