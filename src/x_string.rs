//! Small conversions to strings for paths and optional strings, and a
//! newtype for conversions between outside types.

use vstd::prelude::*;
use crate::config::opt_text;
use crate::path::SitePath;

verus! {

/// A value wrapped for conversions between types of other crates.
pub struct W<T>(pub T);

/// An owned text of a value, if it has one.
pub trait XString {
    /// The text, if any.
    spec fn text_view(&self) -> Option<Seq<char>>;

    fn x_string(&self) -> (r: Option<String>)
        ensures
            opt_text(r) == self.text_view(),
    ;
}

/// A borrowed text of a value, if it has one.
pub trait XStr {
    /// The text, if any.
    spec fn str_view(&self) -> Option<Seq<char>>;

    fn x_str(&self) -> (r: Option<&str>)
        ensures
            match r {
                Some(s) => self.str_view() == Some(s@),
                None => self.str_view() is None,
            },
    ;
}

/// A text to display: the value's text, or the empty text.
pub trait DispStr {
    /// The text shown.
    spec fn disp_view(&self) -> Seq<char>;

    fn disp_str(&self) -> (r: &str)
        ensures
            r@ == self.disp_view(),
    ;
}

impl XString for SitePath {
    open spec fn text_view(&self) -> Option<Seq<char>> {
        Some(self@.text())
    }

    fn x_string(&self) -> (r: Option<String>) {
        Some(self.to_text())
    }
}

impl XString for Option<SitePath> {
    open spec fn text_view(&self) -> Option<Seq<char>> {
        match self {
            Some(p) => Some(p@.text()),
            None => None,
        }
    }

    fn x_string(&self) -> (r: Option<String>) {
        match self {
            Some(p) => Some(p.to_text()),
            None => None,
        }
    }
}

impl XStr for Option<String> {
    open spec fn str_view(&self) -> Option<Seq<char>> {
        opt_text(*self)
    }

    fn x_str(&self) -> (r: Option<&str>) {
        match self {
            Some(s) => Some(s.as_str()),
            None => None,
        }
    }
}

impl DispStr for Option<String> {
    open spec fn disp_view(&self) -> Seq<char> {
        match self {
            Some(s) => s@,
            None => Seq::empty(),
        }
    }

    fn disp_str(&self) -> (r: &str) {
        match self {
            Some(s) => s.as_str(),
            None => {
                proof {
                    reveal_strlit("");
                }
                ""
            },
        }
    }
}

} // verus!
