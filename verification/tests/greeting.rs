use dna_assistant::greeting::{format_greeting, greet, run, sayhello, GreetingError};

#[test]
fn test_format_greeting_ok() {
    let result = format_greeting("Alice", Ok(String::from("Hi, Alice")));
    assert_eq!(result, "Hi, Alice");
}

#[test]
fn test_format_greeting_unknown_gender() {
    let result = format_greeting("Unknown", Err(GreetingError::UnknownGender));
    assert_eq!(result, "Hi, Unknown");
}

#[test]
fn test_format_greeting_invalid_gender() {
    let result = format_greeting("Bob", Err(GreetingError::InvalidGender(String::from("other"))));
    assert_eq!(result, "Hi, Bob (invalid gender: other)");
}

#[test]
fn test_run_with_default_name() {
    assert_eq!(run("Youre", None), "Hi, Youre, new world!!");
}

#[test]
fn test_run_with_custom_name() {
    assert_eq!(run("Alice", None), "Hi, Alice, new world!!");
}

#[test]
fn test_run_with_empty_name() {
    assert_eq!(run("", None), "Hi, , new world!!");
}

#[test]
fn test_run_with_japanese_name() {
    assert_eq!(run("世界", None), "Hi, 世界, new world!!");
}

#[test]
fn test_run_with_gender_man() {
    assert_eq!(run("John", Some("man")), "Hi, Mr. John, new world!!");
}

#[test]
fn test_run_with_gender_woman() {
    assert_eq!(run("Alice", Some("woman")), "Hi, Ms. Alice, new world!!");
}

#[test]
fn test_run_with_invalid_gender() {
    assert_eq!(run("Bob", Some("other")), "Hi, Bob (invalid gender: other), new world!!");
}

#[test]
fn sayhello_rejects_unknown_gender() {
    match sayhello("Bob", Some("other")) {
        Err(GreetingError::InvalidGender(g)) => assert_eq!(g, "other"),
        _ => panic!("expected an invalid gender"),
    }
    assert!(matches!(sayhello("Bob", Some("Man")), Err(GreetingError::InvalidGender(_))));
}

#[test]
fn greet_returns_welcome_message() {
    let result = greet("Player");
    assert_eq!(result, "Hello, Player! Welcome to DNA Assistant.");
}
