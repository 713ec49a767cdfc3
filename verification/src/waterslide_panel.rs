//! What the next transmission is aimed at.

use vstd::prelude::*;

verus! {

/// What the next transmission is aimed at: bare spectrum, or a station that was picked.
#[derive(Debug, PartialEq)]
pub enum Target {
    Offset(i32),
    Station { call: String, off: i32 },
}

impl Target {
    /// The audio offset of the next transmission, in hertz.
    pub open spec fn lane(self) -> i32 {
        match self {
            Target::Offset(o) => o,
            Target::Station { off, .. } => off,
        }
    }

    /// The call that the next transmission is for.
    pub open spec fn call(self) -> Option<Seq<char>> {
        match self {
            Target::Station { call, .. } => Some(call@),
            Target::Offset(_) => None,
        }
    }

    /// The audio offset of the next transmission, in hertz.
    pub fn off(&self) -> (r: i32)
        ensures
            r == self.lane(),
    {
        match self {
            Target::Offset(o) => *o,
            Target::Station { off, .. } => *off,
        }
    }

    /// The call of the station that was picked, if one was.
    pub fn station(&self) -> (r: Option<&str>)
        ensures
            match r {
                Some(s) => Some(s@) == self.call(),
                None => self.call() is None,
            },
    {
        match self {
            Target::Station { call, .. } => Some(call.as_str()),
            Target::Offset(_) => None,
        }
    }
}

impl Clone for Target {
    fn clone(&self) -> (r: Self)
        ensures
            r == *self,
    {
        match self {
            Target::Offset(o) => Target::Offset(*o),
            Target::Station { call, off } => Target::Station { call: call.clone(), off: *off },
        }
    }
}

} // verus!
