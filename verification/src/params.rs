//! A read-only accessor over the parameters of a call.
//!
//! Parameters come in two shapes, positional and named. The accessor answers
//! by index for the first and by key for the second, and says so when it is
//! asked the wrong way round. A call without parameters has no entry of
//! either shape.

use vstd::prelude::*;
use crate::types::{Params, Value};

verus! {

/// Why a parameter could not be handed out.
#[derive(Debug, Clone, Copy, PartialEq, Eq, Structural)]
pub enum ParamError {
    /// No parameter stands at that index or under that key.
    MissingParam,
    /// Positional parameters were asked by key, or named ones by index.
    ParamKindMismatch,
}

/// The number of parameters.
pub open spec fn params_len(params: Params) -> nat {
    match params {
        Params::Absent => 0,
        Params::Positional(values) => values@.len(),
        Params::Named(entries) => entries@.len(),
    }
}

/// Whether `position` is the first entry of `entries` whose key is `key`.
pub open spec fn first_with_key(
    entries: Seq<(String, Value)>,
    key: Seq<char>,
    position: int,
) -> bool {
    &&& 0 <= position < entries.len()
    &&& entries[position].0@ == key
    &&& forall|j: int| 0 <= j < position ==> (#[trigger] entries[j]).0@ != key
}

/// Whether some entry of `entries` has the key `key`.
pub open spec fn has_key(entries: Seq<(String, Value)>, key: Seq<char>) -> bool {
    exists|j: int| 0 <= j < entries.len() && (#[trigger] entries[j]).0@ == key
}

/// What asking for the parameter at `index` gives.
pub open spec fn by_index(params: Params, index: int) -> Result<Value, ParamError> {
    match params {
        Params::Absent => Err(ParamError::MissingParam),
        Params::Positional(values) => if 0 <= index < values@.len() {
            Ok(values@[index])
        } else {
            Err(ParamError::MissingParam)
        },
        Params::Named(_) => Err(ParamError::ParamKindMismatch),
    }
}

/// Whether `result` is what asking for the parameter under `key` gives: the
/// value of the first entry with that key.
pub open spec fn by_key(params: Params, key: Seq<char>, result: Result<Value, ParamError>) -> bool {
    match params {
        Params::Absent => result == Err::<Value, ParamError>(ParamError::MissingParam),
        Params::Positional(_) => result == Err::<Value, ParamError>(
            ParamError::ParamKindMismatch,
        ),
        Params::Named(entries) => match result {
            Ok(value) => exists|i: int| #[trigger]
                first_with_key(entries@, key, i) && entries@[i].1 == value,
            Err(error) => error == ParamError::MissingParam && !has_key(entries@, key),
        },
    }
}

/// The pair that iteration yields at `position`: the key, if the parameters
/// are named, and the value. Nothing past the last parameter.
pub open spec fn pair_at(params: Params, position: int) -> Option<(Option<Seq<char>>, Value)> {
    match params {
        Params::Absent => None,
        Params::Positional(values) => if 0 <= position < values@.len() {
            Some((None, values@[position]))
        } else {
            None
        },
        Params::Named(entries) => if 0 <= position < entries@.len() {
            Some((Some(entries@[position].0@), entries@[position].1))
        } else {
            None
        },
    }
}

/// The mathematical value of a pair that iteration yields.
pub open spec fn pair_view(pair: Option<(Option<&str>, &Value)>) -> Option<
    (Option<Seq<char>>, Value),
> {
    match pair {
        None => None,
        Some((None, value)) => Some((None, *value)),
        Some((Some(key), value)) => Some((Some(key@), *value)),
    }
}

/// The mathematical value of a looked-up parameter.
pub open spec fn found_view(found: Result<&Value, ParamError>) -> Result<Value, ParamError> {
    match found {
        Ok(value) => Ok(*value),
        Err(error) => Err(error),
    }
}

/// Read-only access to the parameters of one call.
pub struct ServerRequestParams<'a> {
    params: Option<&'a Params>,
}

impl<'a> ServerRequestParams<'a> {
    /// The parameters that the accessor reads; absent ones for a call that
    /// has none.
    pub closed spec fn params(&self) -> Params {
        match self.params {
            Some(params) => *params,
            None => Params::Absent,
        }
    }

    /// An accessor over `params`.
    pub fn from(params: &'a Params) -> (r: Self)
        ensures
            r.params() == *params,
    {
        ServerRequestParams { params: Some(params) }
    }

    /// An accessor over no parameters at all.
    pub fn absent() -> (r: Self)
        ensures
            r.params() == Params::Absent,
    {
        ServerRequestParams { params: None }
    }

    /// The number of parameters.
    pub fn len(&self) -> (r: usize)
        ensures
            r == params_len(self.params()),
    {
        match self.params {
            None => 0,
            Some(params) => match params {
                Params::Absent => 0,
                Params::Positional(values) => values.len(),
                Params::Named(entries) => entries.len(),
            },
        }
    }

    /// Whether the parameters are positional.
    pub fn is_positional(&self) -> (r: bool)
        ensures
            r == (self.params() is Positional),
    {
        match self.params {
            Some(Params::Positional(_)) => true,
            _ => false,
        }
    }

    /// Whether the parameters are named.
    pub fn is_named(&self) -> (r: bool)
        ensures
            r == (self.params() is Named),
    {
        match self.params {
            Some(Params::Named(_)) => true,
            _ => false,
        }
    }

    /// The positional parameter at `index`. Named parameters are a kind
    /// mismatch; an index past the end, or a call without parameters, is a
    /// missing parameter.
    pub fn get_index(&self, index: usize) -> (r: Result<&'a Value, ParamError>)
        ensures
            found_view(r) == by_index(self.params(), index as int),
    {
        match self.params {
            None => Err(ParamError::MissingParam),
            Some(params) => match params {
                Params::Absent => Err(ParamError::MissingParam),
                Params::Positional(values) => {
                    if index < values.len() {
                        Ok(&values[index])
                    } else {
                        Err(ParamError::MissingParam)
                    }
                },
                Params::Named(_) => Err(ParamError::ParamKindMismatch),
            },
        }
    }

    /// The named parameter under `key`: the value of the first entry with
    /// that key. Positional parameters are a kind mismatch; a key that no
    /// entry has, or a call without parameters, is a missing parameter.
    pub fn get_key(&self, key: &str) -> (r: Result<&'a Value, ParamError>)
        ensures
            by_key(self.params(), key@, found_view(r)),
    {
        match self.params {
            None => Err(ParamError::MissingParam),
            Some(params) => match params {
                Params::Absent => Err(ParamError::MissingParam),
                Params::Positional(_) => Err(ParamError::ParamKindMismatch),
                Params::Named(entries) => {
                    let wanted = key.to_owned();
                    let mut i: usize = 0;
                    while i < entries.len()
                        invariant
                            i <= entries.len(),
                            wanted@ == key@,
                            self.params() == Params::Named(*entries),
                            forall|j: int| 0 <= j < i ==> (#[trigger] entries@[j]).0@ != key@,
                        decreases entries.len() - i,
                    {
                        if entries[i].0 == wanted {
                            let found = &entries[i].1;
                            assert(first_with_key(entries@, key@, i as int) && entries@[i as int].1
                                == *found);
                            return Ok(found);
                        }
                        i = i + 1;
                    }
                    Err(ParamError::MissingParam)
                },
            },
        }
    }

    /// The pair of key and value at `position` in the client's order: the
    /// key is absent for positional parameters. Nothing past the end.
    pub fn entry(&self, position: usize) -> (r: Option<(Option<&'a str>, &'a Value)>)
        ensures
            pair_view(r) == pair_at(self.params(), position as int),
    {
        match self.params {
            None => None,
            Some(params) => match params {
                Params::Absent => None,
                Params::Positional(values) => {
                    if position < values.len() {
                        Some((None, &values[position]))
                    } else {
                        None
                    }
                },
                Params::Named(entries) => {
                    if position < entries.len() {
                        Some((Some(entries[position].0.as_str()), &entries[position].1))
                    } else {
                        None
                    }
                },
            },
        }
    }

    /// A cursor that walks the parameters from the first one. Every call
    /// starts a walk of its own.
    pub fn iter(&self) -> (r: ServerRequestParamsIter<'a>)
        ensures
            r.params() == self.params(),
            r.position() == 0,
    {
        ServerRequestParamsIter { source: ServerRequestParams { params: self.params }, position: 0 }
    }
}

/// A cursor over the parameters of one call.
pub struct ServerRequestParamsIter<'a> {
    source: ServerRequestParams<'a>,
    position: usize,
}

impl<'a> ServerRequestParamsIter<'a> {
    /// The parameters that the cursor walks.
    pub closed spec fn params(&self) -> Params {
        self.source.params()
    }

    /// The number of pairs handed out so far.
    pub closed spec fn position(&self) -> nat {
        self.position as nat
    }

    /// The next pair of key and value, or nothing once all were handed out.
    pub fn next(&mut self) -> (r: Option<(Option<&'a str>, &'a Value)>)
        ensures
            final(self).params() == old(self).params(),
            pair_view(r) == pair_at(old(self).params(), old(self).position() as int),
            final(self).position() == if r is Some {
                old(self).position() + 1
            } else {
                old(self).position()
            },
    {
        let count = self.source.len();
        let pair = self.source.entry(self.position);
        if self.position < count {
            self.position = self.position + 1;
        }
        pair
    }
}

} // verus!
