use vstd::prelude::*;

verus! {

/// A business error: a numeric code and the translation key of its message.
#[derive(Debug)]
pub struct I18nError<'a> {
    pub code: i32,
    pub key: &'a str,
}

impl<'a> I18nError<'a> {
    pub fn new(code: i32, key: &'a str) -> (r: Self)
        ensures
            r.code == code,
            r.key@ == key@,
    {
        Self { code, key }
    }
}

} // verus!
