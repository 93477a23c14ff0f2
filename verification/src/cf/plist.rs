use vstd::prelude::*;

verus! {

/// A value that can be attached under a key.
#[derive(Debug)]
pub enum Plist {
    Boolean(bool),
    Number(i64),
    String(String),
}

/// An attached value, as contracts speak of it.
pub enum PlistView {
    Boolean(bool),
    Number(i64),
    String(Seq<char>),
}

impl View for Plist {
    type V = PlistView;

    open spec fn view(&self) -> PlistView {
        match self {
            Plist::Boolean(b) => PlistView::Boolean(*b),
            Plist::Number(n) => PlistView::Number(*n),
            Plist::String(s) => PlistView::String(s@),
        }
    }
}

impl Plist {
    /// A copy of the value.
    pub fn duplicate(&self) -> (copy: Plist)
        ensures
            copy@ == self@,
    {
        match self {
            Plist::Boolean(b) => Plist::Boolean(*b),
            Plist::Number(n) => Plist::Number(*n),
            Plist::String(s) => Plist::String(s.clone()),
        }
    }

    /// Whether the value is the boolean `false`.
    #[inline]
    pub fn is_false(&self) -> (yes: bool)
        ensures
            yes == (self@ == PlistView::Boolean(false)),
    {
        match self {
            Plist::Boolean(b) => !*b,
            _ => false,
        }
    }

    /// Whether the value is the boolean `true`.
    #[inline]
    pub fn is_true(&self) -> (yes: bool)
        ensures
            yes == (self@ == PlistView::Boolean(true)),
    {
        match self {
            Plist::Boolean(b) => *b,
            _ => false,
        }
    }
}

} // verus!
