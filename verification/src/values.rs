//! Small value types and the operations defined on them.

use vstd::prelude::*;
use vstd::string::StringExecFns;

use crate::capability::Describe;
use crate::capability::Summary;

verus! {

/// An account record.
pub struct User {
    /// Whether the account is active.
    pub active: bool,
    /// The account's display name.
    pub username: String,
    /// The account's mail address.
    pub email: String,
    /// How often the account signed in.
    pub sign_in_count: u64,
}

/// Build a fresh account: active, with one sign-in on record.
pub fn build_user(username: String, email: String) -> (r: User)
    ensures
        r.active == true,
        r.username == username,
        r.email == email,
        r.sign_in_count == 1,
{
    User { active: true, username, email, sign_in_count: 1 }
}

impl Summary for User {
    open spec fn summary_spec(&self) -> Seq<char> {
        "User: "@ + self.username@
    }

    fn summarize(&self) -> (r: String) {
        let mut r = "User: ".to_owned();
        r.append(self.username.as_str());
        r
    }

    // summarize_author is inherited: the defaulted operation's promise holds.
}

/// Hand the text back together with its length in bytes of its encoding.
pub fn calculate_length(s: String) -> (r: (String, usize))
    ensures
        r.0 == s,
        r.1 == vstd::utf8::encode_utf8(s@).len(),
{
    let length = s.as_str().as_bytes().len();
    (s, length)
}

/// A state a quarter coin may name.
#[derive(Debug)]
pub enum UsState {
    /// The state of Alabama.
    Alabama,
    /// The state of Alaska.
    Alaska,
}

/// A coin denomination.
pub enum Coin {
    /// One cent.
    Penny,
    /// Five cents.
    Nickel,
    /// Ten cents.
    Dime,
    /// Twenty-five cents, struck for a state.
    Quarter(UsState),
}

/// The value of a coin in cents.
pub fn value_in_cents(coin: Coin) -> (r: u8)
    ensures
        coin is Penny ==> r == 1,
        coin is Nickel ==> r == 5,
        coin is Dime ==> r == 10,
        coin is Quarter ==> r == 25,
{
    match coin {
        Coin::Penny => 1,
        Coin::Nickel => 5,
        Coin::Dime => 10,
        Coin::Quarter(_state) => 25,
    }
}

/// One more than the held value, when one is held.
pub fn plus_one(x: Option<i32>) -> (r: Option<i32>)
    requires
        x matches Some(i) ==> i < i32::MAX,
    ensures
        x is None ==> r is None,
        x matches Some(i) ==> r == Some((i + 1) as i32),
{
    match x {
        None => None,
        Some(i) => Some(i + 1),
    }
}

/// Whether a file is open.
#[derive(Debug, PartialEq, Eq, Structural)]
pub enum FileState {
    /// The file is open.
    Open,
    /// The file is closed.
    Closed,
}

/// The text a file state renders to.
pub open spec fn file_state_text(s: FileState) -> Seq<char> {
    match s {
        FileState::Open => "OPEN"@,
        FileState::Closed => "Close"@,
    }
}

impl Describe for FileState {
    open spec fn describe_spec(&self) -> Seq<char> {
        file_state_text(*self)
    }

    fn describe(&self) -> (r: String) {
        match *self {
            FileState::Open => "OPEN".to_owned(),
            FileState::Closed => "Close".to_owned(),
        }
    }
}

/// A named file and its contents.
#[derive(Debug)]
pub struct File {
    /// The file's name.
    pub name: String,
    /// The file's contents.
    pub data: Vec<u8>,
    /// Whether the file is open.
    pub state: FileState,
}

impl File {
    /// A fresh file: empty and closed.
    pub fn new(name: &str) -> (r: File)
        ensures
            r.name@ == name@,
            r.data@ == Seq::<u8>::empty(),
            r.state == FileState::Closed,
    {
        File { name: name.to_owned(), data: Vec::new(), state: FileState::Closed }
    }
}

impl Describe for File {
    open spec fn describe_spec(&self) -> Seq<char> {
        "<"@ + self.name@ + " ("@ + file_state_text(self.state) + ")>"@
    }

    fn describe(&self) -> (r: String) {
        let mut r = "<".to_owned();
        r.append(self.name.as_str());
        r.append(" (");
        let st = self.state.describe();
        r.append(st.as_str());
        r.append(")>");
        r
    }
}

} // verus!
