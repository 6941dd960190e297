//! Predicates over request components: a matcher decides whether a path, a
//! header value set, or a body is acceptable to a mock.

use vstd::prelude::*;

verus! {

/// A predicate over a piece of a request (its path, the values of one of its
/// headers, or its body).
pub enum Matcher {
    /// Accepts exactly this string.
    Exact(String),
    /// Accepts exactly these raw bytes, and only when matched against bytes.
    Binary(Vec<u8>),
    /// Accepts a string equal to any of the listed alternatives.
    AnyOf(Vec<String>),
    /// Accepts anything.
    Any,
    /// Accepts only the absence of a value (an empty header value set).
    Missing,
}

impl Matcher {
    /// What this matcher accepts of a single textual value.
    pub open spec fn accepts_value(self, value: Seq<char>) -> bool {
        match self {
            Matcher::Exact(s) => s@ == value,
            Matcher::Binary(_) => false,
            Matcher::AnyOf(options) => exists|i: int|
                0 <= i < options@.len() && options@[i]@ == value,
            Matcher::Any => true,
            Matcher::Missing => false,
        }
    }

    /// What this matcher accepts of a raw byte value.
    pub open spec fn accepts_binary(self, value: Seq<u8>) -> bool {
        match self {
            Matcher::Binary(b) => b@ == value,
            _ => false,
        }
    }

    /// What this matcher accepts of the complete set of values found under
    /// one header name: `Missing` accepts absence; every other matcher
    /// requires presence and must accept each value found.
    pub open spec fn accepts_values(self, values: Seq<String>) -> bool {
        match self {
            Matcher::Missing => values.len() == 0,
            _ => values.len() > 0 && forall|i: int|
                0 <= i < values.len() ==> self.accepts_value(#[trigger] values[i]@),
        }
    }

    pub fn matches_value(&self, value: &String) -> (r: bool)
        ensures
            r == self.accepts_value(value@),
    {
        match self {
            Matcher::Exact(s) => *s == *value,
            Matcher::Binary(_) => false,
            Matcher::AnyOf(options) => {
                let mut i: usize = 0;
                let mut found = false;
                while i < options.len()
                    invariant
                        i <= options@.len(),
                        found == exists|k: int| 0 <= k < i && options@[k]@ == value@,
                    decreases options@.len() - i,
                {
                    if options[i] == *value {
                        found = true;
                    }
                    i = i + 1;
                }
                found
            },
            Matcher::Any => true,
            Matcher::Missing => false,
        }
    }

    pub fn matches_binary_value(&self, value: &Vec<u8>) -> (r: bool)
        ensures
            r == self.accepts_binary(value@),
    {
        match self {
            Matcher::Binary(b) => {
                if b.len() != value.len() {
                    false
                } else {
                    let mut i: usize = 0;
                    let mut eq = true;
                    while i < b.len()
                        invariant
                            i <= b@.len(),
                            b@.len() == value@.len(),
                            eq == (forall|k: int| 0 <= k < i ==> b@[k] == value@[k]),
                        decreases b@.len() - i,
                    {
                        if b[i] != value[i] {
                            eq = false;
                        }
                        i = i + 1;
                    }
                    proof {
                        if eq {
                            assert(b@ =~= value@);
                        }
                    }
                    eq
                }
            },
            _ => false,
        }
    }

    pub fn matches_values(&self, values: &Vec<String>) -> (r: bool)
        ensures
            r == self.accepts_values(values@),
    {
        match self {
            Matcher::Missing => values.len() == 0,
            _ => {
                if values.len() == 0 {
                    false
                } else {
                    let mut i: usize = 0;
                    let mut all = true;
                    while i < values.len()
                        invariant
                            i <= values@.len(),
                            all == (forall|k: int|
                                0 <= k < i ==> self.accepts_value(#[trigger] values@[k]@)),
                        decreases values@.len() - i,
                    {
                        if !self.matches_value(&values[i]) {
                            all = false;
                        }
                        i = i + 1;
                    }
                    all
                }
            },
        }
    }
}

} // verus!
