//! Mapping an optional string, keeping the string as the error where the mapping fails.
use vstd::prelude::*;

verus! {

/// Maps the string of an `Option`; the error is the string itself, or the empty string
/// where there is none.
pub trait OptionExt<'a>: Sized {
    /// The string held, if any.
    spec fn held(&self) -> Option<&'a str>;

    /// Maps by `op`; where `op` fails, the error is the string.
    fn map_or_err_str<F, U, E>(self, op: F) -> Result<U, &'a str> where
        F: FnOnce(&str) -> Result<U, E>,
        requires
            self.held() matches Some(v) ==> call_requires(op, (v,)),
    ;

    /// Maps by `op`; where `op` gives nothing, the error is the string.
    fn map_else_err_str<F, U>(self, op: F) -> Result<U, &'a str> where
        F: FnOnce(&str) -> Option<U>,
        requires
            self.held() matches Some(v) ==> call_requires(op, (v,)),
    ;
}

impl<'a> OptionExt<'a> for Option<&'a str> {
    open spec fn held(&self) -> Option<&'a str> {
        *self
    }

    fn map_or_err_str<F, U, E>(self, op: F) -> (r: Result<U, &'a str>) where
        F: FnOnce(&str) -> Result<U, E>,
        ensures
            match self {
                None => r matches Err(e) && e@ == Seq::<char>::empty(),
                Some(v) => exists|res: Result<U, E>|
                    call_ensures(op, (v,), res) && match res {
                        Ok(u) => r == Ok::<U, &'a str>(u),
                        Err(_) => r matches Err(e) && e@ == v@,
                    },
            },
    {
        match self {
            None => {
                let e: &'a str = "";
                proof {
                    reveal_strlit("");
                }
                Err(e)
            },
            Some(v) => match op(v) {
                Ok(u) => Ok(u),
                Err(_) => Err(v),
            },
        }
    }

    fn map_else_err_str<F, U>(self, op: F) -> (r: Result<U, &'a str>) where
        F: FnOnce(&str) -> Option<U>,
        ensures
            match self {
                None => r matches Err(e) && e@ == Seq::<char>::empty(),
                Some(v) => exists|res: Option<U>|
                    call_ensures(op, (v,), res) && match res {
                        Some(u) => r == Ok::<U, &'a str>(u),
                        None => r matches Err(e) && e@ == v@,
                    },
            },
    {
        match self {
            None => {
                let e: &'a str = "";
                proof {
                    reveal_strlit("");
                }
                Err(e)
            },
            Some(v) => match op(v) {
                Some(u) => Ok(u),
                None => Err(v),
            },
        }
    }
}

} // verus!
