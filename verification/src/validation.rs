//! Creation-time validation of the free-text fields of a person record.
//!
//! Each field gets a newtype whose constructor enforces a length limit,
//! counted in characters. A value of one of these types is therefore known
//! to be within its limit wherever it flows.

use vstd::prelude::*;

verus! {

/// Longest allowed person name, in characters.
pub const NAME_MAX: usize = 100;

/// Longest allowed nickname, in characters.
pub const NICKNAME_MAX: usize = 32;

/// Longest allowed technology name in a stack, in characters.
pub const TECH_MAX: usize = 32;

/// A person's name, at most `NAME_MAX` characters.
#[derive(Debug)]
pub struct Name(String);

impl View for Name {
    type V = Seq<char>;

    closed spec fn view(&self) -> Seq<char> {
        self.0@
    }
}

impl Name {
    /// Whether the wrapped text is within the limit. Every `Name` that the
    /// constructor hands out satisfies this.
    pub open spec fn wf(&self) -> bool {
        self@.len() <= NAME_MAX
    }

    /// Accepts the text when it has at most `NAME_MAX` characters and
    /// rejects it otherwise, leaving the accepted text unchanged.
    pub fn try_from(value: String) -> (r: Result<Name, &'static str>)
        ensures
            r is Ok <==> value@.len() <= NAME_MAX,
            r matches Ok(n) ==> n@ == value@ && n.wf(),
            r matches Err(e) ==> e@ == "Name should contain less than 100 characters!"@,
    {
        if value.as_str().unicode_len() <= NAME_MAX {
            Ok(Name(value))
        } else {
            Err("Name should contain less than 100 characters!")
        }
    }

    /// Hands the validated text back out.
    pub fn into_string(self) -> (r: String)
        ensures
            r@ == self@,
    {
        self.0
    }
}

impl Clone for Name {
    /// A copy that wraps the same text.
    fn clone(&self) -> (r: Self)
        ensures
            r@ == self@,
    {
        Name(self.0.clone())
    }
}

/// A person's nickname, at most `NICKNAME_MAX` characters.
#[derive(Debug)]
pub struct Nickname(String);

impl View for Nickname {
    type V = Seq<char>;

    closed spec fn view(&self) -> Seq<char> {
        self.0@
    }
}

impl Nickname {
    /// Whether the wrapped text is within the limit. Every `Nickname` that
    /// the constructor hands out satisfies this.
    pub open spec fn wf(&self) -> bool {
        self@.len() <= NICKNAME_MAX
    }

    /// Accepts the text when it has at most `NICKNAME_MAX` characters and
    /// rejects it otherwise, leaving the accepted text unchanged.
    pub fn try_from(value: String) -> (r: Result<Nickname, &'static str>)
        ensures
            r is Ok <==> value@.len() <= NICKNAME_MAX,
            r matches Ok(n) ==> n@ == value@ && n.wf(),
            r matches Err(e) ==> e@ == "Nickname should contain less than 32 characters!"@,
    {
        if value.as_str().unicode_len() <= NICKNAME_MAX {
            Ok(Nickname(value))
        } else {
            Err("Nickname should contain less than 32 characters!")
        }
    }

    /// Hands the validated text back out.
    pub fn into_string(self) -> (r: String)
        ensures
            r@ == self@,
    {
        self.0
    }
}

impl Clone for Nickname {
    /// A copy that wraps the same text.
    fn clone(&self) -> (r: Self)
        ensures
            r@ == self@,
    {
        Nickname(self.0.clone())
    }
}

/// One technology name of a person's stack, at most `TECH_MAX` characters.
#[derive(Debug)]
pub struct Tech(String);

impl View for Tech {
    type V = Seq<char>;

    closed spec fn view(&self) -> Seq<char> {
        self.0@
    }
}

impl Tech {
    /// Whether the wrapped text is within the limit. Every `Tech` that the
    /// constructor hands out satisfies this.
    pub open spec fn wf(&self) -> bool {
        self@.len() <= TECH_MAX
    }

    /// Accepts the text when it has at most `TECH_MAX` characters and
    /// rejects it otherwise, leaving the accepted text unchanged.
    pub fn try_from(value: String) -> (r: Result<Tech, &'static str>)
        ensures
            r is Ok <==> value@.len() <= TECH_MAX,
            r matches Ok(t) ==> t@ == value@ && t.wf(),
            r matches Err(e) ==> e@ == "Each stack should contain less than 32 characters!"@,
    {
        if value.as_str().unicode_len() <= TECH_MAX {
            Ok(Tech(value))
        } else {
            Err("Each stack should contain less than 32 characters!")
        }
    }

    /// Hands the validated text back out.
    pub fn into_string(self) -> (r: String)
        ensures
            r@ == self@,
    {
        self.0
    }
}

impl Clone for Tech {
    /// A copy that wraps the same text.
    fn clone(&self) -> (r: Self)
        ensures
            r@ == self@,
    {
        Tech(self.0.clone())
    }
}

} // verus!
