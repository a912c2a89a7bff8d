//! Pollutant kinds and their classification from a sensor's parameter code.
use vstd::prelude::*;

verus! {

/// The pollutants that are exported as gauges.
#[derive(Clone, Copy, Debug, PartialEq, Eq, Structural)]
pub enum Param {
    PM25,
    PM10,
}

/// The kind named by a parameter code: exact match on "PM2.5" or "PM10".
pub open spec fn param_of_code(code: Seq<char>) -> Option<Param> {
    if code == "PM2.5"@ {
        Some(Param::PM25)
    } else if code == "PM10"@ {
        Some(Param::PM10)
    } else {
        None
    }
}

/// Character-wise equality of two strings.
pub fn same_text(a: &str, b: &str) -> (r: bool)
    ensures
        r == (a@ == b@),
{
    let n = a.unicode_len();
    if n != b.unicode_len() {
        return false;
    }
    let mut i: usize = 0;
    while i < n
        invariant
            n == a@.len(),
            n == b@.len(),
            i <= n,
            forall|j: int| 0 <= j < i ==> a@[j] == b@[j],
        decreases n - i,
    {
        if a.get_char(i) != b.get_char(i) {
            return false;
        }
        i = i + 1;
    }
    assert(a@ =~= b@);
    true
}

impl Param {
    /// Classifies a parameter code; codes other than "PM2.5" and "PM10" are not exported.
    pub fn from_code(code: &str) -> (r: Option<Param>)
        ensures
            r == param_of_code(code@),
    {
        proof {
            reveal_strlit("PM2.5");
            reveal_strlit("PM10");
        }
        if same_text(code, "PM2.5") {
            Some(Param::PM25)
        } else if same_text(code, "PM10") {
            Some(Param::PM10)
        } else {
            None
        }
    }
}

impl std::str::FromStr for Param {
    type Err = ();

    fn from_str(s: &str) -> (r: Result<Param, ()>)
        ensures
            r == match param_of_code(s@) {
                Some(p) => Ok::<Param, ()>(p),
                None => Err::<Param, ()>(()),
            },
    {
        match Param::from_code(s) {
            Some(p) => Ok(p),
            None => Err(()),
        }
    }
}

} // verus!
