//! Registry lookup through the wildcard-aware matching, and the built-in
//! registries.

use toolproof::definitions::{
    register_assertions, register_instructions, register_retrievers, InstructionTag, RetrieverTag,
};
use toolproof::parser::parse_segments;
use toolproof::universe::Registry;

#[test]
fn test_getting_an_instruction() {
    let mut all_instructions: Registry<&str> = Registry::new();
    let pattern = "__test__ I am an instruction asking for {argument}";
    assert!(all_instructions.insert(parse_segments(pattern).expect("Valid instruction"), pattern));

    let users_instruction =
        parse_segments("__test__ I am an instruction asking for \"this argument\"")
            .expect("Valid instruction");

    let matching_instruction = all_instructions
        .get(&users_instruction)
        .expect("should be able to retrieve instruction");

    assert_eq!(
        *matching_instruction,
        "__test__ I am an instruction asking for {argument}"
    );
}

#[test]
fn test_getting_a_retriever() {
    let mut all_segments: Registry<&str> = Registry::new();
    let pattern = "__test__ the file {filename}";
    assert!(all_segments.insert(parse_segments(pattern).expect("Valid instruction"), pattern));

    let users_segments =
        parse_segments("__test__ the file \"index.html\"").expect("Valid instruction");

    let matching_retriever = all_segments
        .get(&users_segments)
        .expect("should be able to retrieve segments");

    assert_eq!(*matching_retriever, "__test__ the file {filename}");
}

#[test]
fn test_getting_an_assertion() {
    let mut all_segments: Registry<&str> = Registry::new();
    let pattern = "__test__ be exactly {value}";
    assert!(all_segments.insert(parse_segments(pattern).expect("Valid instruction"), pattern));

    let users_segments = parse_segments("__test__ be exactly {my_json}").expect(
        "Valid instruction",
    );

    let matching_assertion = all_segments
        .get(&users_segments)
        .expect("should be able to retrieve segments");

    assert_eq!(*matching_assertion, "__test__ be exactly {value}");
}

#[test]
fn test_builtin_registries() {
    let instructions = register_instructions().expect("instructions register");
    let retrievers = register_retrievers().expect("retrievers register");
    let assertions = register_assertions().expect("assertions register");
    assert_eq!(instructions.len(), 16);
    assert_eq!(retrievers.len(), 5);
    assert_eq!(assertions.len(), 6);

    let run = parse_segments("I run \"echo hi\"").expect("Valid segments");
    assert_eq!(instructions.get(&run), Some(&InstructionTag::Run));

    let stdout = parse_segments("stdout").expect("Valid segments");
    assert_eq!(retrievers.get(&stdout), Some(&RetrieverTag::StdOut));

    let unknown = parse_segments("I do a thing that is not registered").expect("Valid segments");
    assert_eq!(instructions.get(&unknown), None);
}

// A key holding a quoted value is no template and is refused.
#[test]
fn test_registry_refuses_value_keys() {
    let mut reg: Registry<&str> = Registry::new();
    let with_value = parse_segments("I have a \"literal\" file").expect("Valid segments");
    assert!(!reg.insert(with_value, "nope"));
    assert_eq!(reg.len(), 0);
}
