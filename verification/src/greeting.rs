//! Greetings of the command-line demo.
use vstd::prelude::*;

use crate::text::{owned, push_str, same_text};

verus! {

/// Why a greeting could not be formed.
pub enum GreetingError {
    /// The gender is neither `"man"` nor `"woman"`.
    InvalidGender(String),
    /// The greeting could not be formed for another reason.
    UnknownGender,
}

/// The greeting for `name`: with `Mr.` for `"man"`, `Ms.` for `"woman"`,
/// plain without a gender; any other gender is invalid.
pub open spec fn greeting_for(name: Seq<char>, gender: Option<Seq<char>>) -> Result<Seq<char>, Seq<char>> {
    match gender {
        None => Ok("Hi, "@ + name),
        Some(g) => if g == "man"@ {
            Ok("Hi, Mr. "@ + name)
        } else if g == "woman"@ {
            Ok("Hi, Ms. "@ + name)
        } else {
            Err(g)
        },
    }
}

/// The characters of an optional string slice.
pub open spec fn opt_str(o: Option<&str>) -> Option<Seq<char>> {
    match o {
        Some(s) => Some(s@),
        None => None,
    }
}

/// Greet `name`, addressed by `gender` when one is given.
pub fn sayhello(name: &str, gender: Option<&str>) -> (r: Result<String, GreetingError>)
    ensures
        match greeting_for(name@, opt_str(gender)) {
            Ok(text) => r matches Ok(s) && s@ == text,
            Err(g) => r matches Err(GreetingError::InvalidGender(s)) && s@ == g,
        },
{
    match gender {
        None => {
            let mut s = owned("Hi, ");
            push_str(&mut s, name);
            Ok(s)
        },
        Some(g) => {
            if same_text(g, "man") {
                let mut s = owned("Hi, Mr. ");
                push_str(&mut s, name);
                Ok(s)
            } else if same_text(g, "woman") {
                let mut s = owned("Hi, Ms. ");
                push_str(&mut s, name);
                Ok(s)
            } else {
                Err(GreetingError::InvalidGender(owned(g)))
            }
        },
    }
}

/// The greeting to show for a `sayhello` result: the greeting itself, or a
/// plain one noting an invalid gender, or a plain one for other errors.
pub open spec fn shown_greeting(name: Seq<char>, result: Result<Seq<char>, Option<Seq<char>>>) -> Seq<char> {
    match result {
        Ok(msg) => msg,
        Err(Some(g)) => "Hi, "@ + name + " (invalid gender: "@ + g + ")"@,
        Err(None) => "Hi, "@ + name,
    }
}

/// The abstract result of `sayhello`.
pub open spec fn result_view(r: Result<String, GreetingError>) -> Result<Seq<char>, Option<Seq<char>>> {
    match r {
        Ok(s) => Ok(s@),
        Err(GreetingError::InvalidGender(g)) => Err(Some(g@)),
        Err(GreetingError::UnknownGender) => Err(None),
    }
}

/// Format a greeting from a `sayhello` result, falling back to a plain
/// greeting on errors.
pub fn format_greeting(name: &str, result: Result<String, GreetingError>) -> (s: String)
    ensures
        s@ == shown_greeting(name@, result_view(result)),
{
    match result {
        Ok(msg) => msg,
        Err(GreetingError::InvalidGender(invalid_gender)) => {
            let mut s = owned("Hi, ");
            push_str(&mut s, name);
            push_str(&mut s, " (invalid gender: ");
            push_str(&mut s, invalid_gender.as_str());
            push_str(&mut s, ")");
            s
        },
        Err(GreetingError::UnknownGender) => {
            let mut s = owned("Hi, ");
            push_str(&mut s, name);
            s
        },
    }
}

/// The message line of the demo: the greeting for `name` and `gender`,
/// followed by `", new world!!"`.
pub fn run(name: &str, gender: Option<&str>) -> (line: String)
    ensures
        line@ == match greeting_for(name@, opt_str(gender)) {
            Ok(text) => text,
            Err(g) => "Hi, "@ + name@ + " (invalid gender: "@ + g + ")"@,
        } + ", new world!!"@,
{
    let result = sayhello(name, gender);
    let mut greeting = format_greeting(name, result);
    push_str(&mut greeting, ", new world!!");
    greeting
}

/// The welcome message of the application for `name`.
pub fn greet(name: &str) -> (s: String)
    ensures
        s@ == "Hello, "@ + name@ + "! Welcome to DNA Assistant."@,
{
    let mut s = owned("Hello, ");
    push_str(&mut s, name);
    push_str(&mut s, "! Welcome to DNA Assistant.");
    s
}

} // verus!
