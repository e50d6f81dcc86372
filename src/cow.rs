//! A string that is borrowed, owned or shared, read the same way in each
//! case.
use vstd::prelude::*;
use std::sync::Arc;

verus! {

/// How a [`Cow`] holds its text.
#[derive(Clone, Copy, Debug, PartialEq, Eq, Structural)]
pub enum Kind {
    Owned,
    Borrowed,
    Shared,
}

/// Length and capacity of a held value. A capacity of zero marks a borrowed
/// value and the largest capacity marks a shared one.
#[derive(Clone, Copy, Debug, PartialEq, Eq, Structural)]
pub struct Metadata(pub usize, pub usize);

impl Metadata {
    pub fn len(&self) -> (r: usize)
        ensures
            r == self.0,
    {
        self.0
    }

    pub fn capacity(&self) -> (r: usize)
        ensures
            r == self.1,
    {
        self.1
    }

    /// How the value is held.
    pub fn kind(&self) -> (r: Kind)
        ensures
            self.1 == usize::MAX ==> r == Kind::Shared,
            self.1 == 0 ==> r == Kind::Borrowed,
            0 < self.1 < usize::MAX ==> r == Kind::Owned,
    {
        if self.1 == usize::MAX {
            Kind::Shared
        } else if self.1 == 0 {
            Kind::Borrowed
        } else {
            Kind::Owned
        }
    }

    pub fn borrowed(len: usize) -> (r: Metadata)
        ensures
            r == Metadata(len, 0),
    {
        Metadata(len, 0)
    }

    pub fn owned(len: usize, capacity: usize) -> (r: Metadata)
        ensures
            r == Metadata(len, capacity),
    {
        Metadata(len, capacity)
    }

    pub fn shared(len: usize) -> (r: Metadata)
        ensures
            r == Metadata(len, usize::MAX),
    {
        Metadata(len, usize::MAX)
    }
}

/// Text that is borrowed for `'a`, owned, or shared behind an `Arc`.
pub enum Cow<'a> {
    Borrowed(&'a str),
    Owned(String),
    Shared(Arc<String>),
}

impl<'a> View for Cow<'a> {
    type V = Seq<char>;

    open spec fn view(&self) -> Seq<char> {
        match self {
            Cow::Borrowed(s) => s@,
            Cow::Owned(s) => s@,
            Cow::Shared(s) => s@,
        }
    }
}

impl<'a> Cow<'a> {
    /// Takes ownership of `owned`.
    pub fn from_owned(owned: String) -> (r: Cow<'a>)
        ensures
            r@ == owned@,
            r is Owned,
    {
        Cow::Owned(owned)
    }

    /// Shares `arc`.
    pub fn from_shared(arc: Arc<String>) -> (r: Cow<'a>)
        ensures
            r@ == arc@,
            r is Shared,
    {
        Cow::Shared(arc)
    }

    /// Borrows `borrowed`.
    pub fn from_borrowed(borrowed: &'a str) -> (r: Cow<'a>)
        ensures
            r@ == borrowed@,
            r is Borrowed,
    {
        Cow::Borrowed(borrowed)
    }

    /// The text, owned; copied unless it was owned already.
    pub fn into_owned(self) -> (r: String)
        ensures
            r@ == self@,
    {
        match self {
            Cow::Borrowed(s) => s.to_owned(),
            Cow::Owned(s) => s,
            Cow::Shared(s) => (*s).clone(),
        }
    }

    /// The text.
    pub fn as_str(&self) -> (r: &str)
        ensures
            r@ == self@,
    {
        match self {
            Cow::Borrowed(s) => *s,
            Cow::Owned(s) => s.as_str(),
            Cow::Shared(s) => (**s).as_str(),
        }
    }

    /// How the text is held.
    pub fn kind(&self) -> (r: Kind)
        ensures
            self is Owned ==> r == Kind::Owned,
            self is Borrowed ==> r == Kind::Borrowed,
            self is Shared ==> r == Kind::Shared,
    {
        match self {
            Cow::Borrowed(_) => Kind::Borrowed,
            Cow::Owned(_) => Kind::Owned,
            Cow::Shared(_) => Kind::Shared,
        }
    }
}

} // verus!
