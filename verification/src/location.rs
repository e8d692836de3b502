//! Where an annotation was made.
//!
//! A location comes in one of two forms, fixed when it is taken:
//!
//! * the plain form is the enclosing scope alone, `app::store::load`; a
//!   description follows it after a single space;
//! * the detailed form adds the place in the source,
//!   `app::store::load, src/store.rs:15:43`; a description follows it after
//!   a comma and a space.

use crate::decimal::{decimal, push_decimal};
use crate::scope::{
    closure_marker, enclosing_scope, has_suffix, lemma_scope_is_bare, lemma_scope_of_plain_name,
    scope_of,
};
use vstd::prelude::*;

verus! {

/// What a `Location` stands for.
pub struct LocationView {
    /// The path of the enclosing function.
    pub scope: Seq<char>,
    /// The place in the source, `file:line:column`, in the detailed form.
    pub place: Option<Seq<char>>,
}

/// A comma and a space: what stands between the parts of a detailed
/// location, and between it and a description.
pub open spec fn comma_space() -> Seq<char> {
    seq![',', ' ']
}

/// A single space: what stands between a plain location and a description.
pub open spec fn space() -> Seq<char> {
    seq![' ']
}

/// The place `file:line:column`, with both numbers in decimal.
pub open spec fn place_text(file: Seq<char>, line: nat, column: nat) -> Seq<char> {
    file + seq![':'] + decimal(line) + seq![':'] + decimal(column)
}

/// The plain location of a name taken at a call site.
pub open spec fn plain_location(raw: Seq<char>) -> LocationView {
    LocationView { scope: enclosing_scope(raw), place: None }
}

/// The detailed location of a name taken at a call site in `file`, at
/// `line` and `column`.
pub open spec fn detailed_location(
    raw: Seq<char>,
    file: Seq<char>,
    line: nat,
    column: nat,
) -> LocationView {
    LocationView { scope: enclosing_scope(raw), place: Some(place_text(file, line, column)) }
}

impl LocationView {
    /// The scope ends in no closure marker.
    pub open spec fn is_bare(self) -> bool {
        !has_suffix(self.scope, closure_marker())
    }

    /// The location as it is written.
    pub open spec fn text(self) -> Seq<char> {
        match self.place {
            None => self.scope,
            Some(place) => self.scope + comma_space() + place,
        }
    }

    /// What stands between the location and a description that follows it.
    pub open spec fn separator(self) -> Seq<char> {
        match self.place {
            None => space(),
            Some(_) => comma_space(),
        }
    }
}

/// The place of an annotation: the enclosing scope and, in the detailed
/// form, the place in the source.
#[derive(Debug)]
pub struct Location {
    scope: String,
    place: Option<String>,
}

impl View for Location {
    type V = LocationView;

    closed spec fn view(&self) -> LocationView {
        LocationView {
            scope: self.scope@,
            place: match self.place {
                None => None,
                Some(place) => Some(place@),
            },
        }
    }
}

impl Location {
    #[verifier::type_invariant]
    spec fn bare(&self) -> bool {
        !has_suffix(self.scope@, closure_marker())
    }

    /// The plain location of the call site whose raw name is `raw`: the
    /// name of the function or closure in which the call is written. A name
    /// that does not end in a closing brace is its own location.
    pub fn capture(raw: &str) -> (location: Location)
        ensures
            location@ == plain_location(raw@),
            location@.is_bare(),
            raw@.len() > 0 && raw@.last() != '}' ==> location@.text() == raw@,
    {
        let scope = scope_of(raw);
        proof {
            lemma_scope_is_bare(raw@);
            if raw@.len() > 0 && raw@.last() != '}' {
                lemma_scope_of_plain_name(raw@);
            }
        }
        Location { scope, place: None }
    }

    /// The detailed location of the call site whose raw name is `raw`, in
    /// the source file `file` at `line` and `column`.
    pub fn capture_at(raw: &str, file: &str, line: u32, column: u32) -> (location: Location)
        ensures
            location@ == detailed_location(raw@, file@, line as nat, column as nat),
            location@.is_bare(),
    {
        let scope = scope_of(raw);
        let mut place = String::from_str(file);
        place.append(":");
        push_decimal(&mut place, line);
        place.append(":");
        push_decimal(&mut place, column);
        proof {
            reveal_strlit(":");
            assert(":"@ =~= seq![':']);
            lemma_scope_is_bare(raw@);
        }
        Location { scope, place: Some(place) }
    }

    /// The location as it is written.
    pub fn text(&self) -> (text: String)
        ensures
            text@ == self@.text(),
            self@.is_bare(),
    {
        proof {
            use_type_invariant(self);
        }
        let mut text = self.scope.clone();
        match &self.place {
            None => {},
            Some(place) => {
                text.append(", ");
                text.append(place.as_str());
                proof {
                    reveal_strlit(", ");
                    assert(", "@ =~= comma_space());
                }
            },
        }
        text
    }

    /// What stands between the location and a description that follows it.
    pub fn separator(&self) -> (separator: &'static str)
        ensures
            separator@ == self@.separator(),
    {
        proof {
            reveal_strlit(" ");
            reveal_strlit(", ");
        }
        match &self.place {
            None => {
                assert(" "@ =~= space());
                " "
            },
            Some(_) => {
                assert(", "@ =~= comma_space());
                ", "
            },
        }
    }
}

} // verus!
