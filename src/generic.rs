use crate::error::Error;
use crate::text::{chars_of, string_of};
use vstd::prelude::*;

verus! {

/// A key and a value, as written `key=value` to override a generic.
#[derive(Debug, Clone, PartialEq)]
pub struct Generic {
    key: String,
    value: String,
}

impl View for Generic {
    type V = (Seq<char>, Seq<char>);

    closed spec fn view(&self) -> (Seq<char>, Seq<char>) {
        (self.key@, self.value@)
    }
}

/// The index of the first `=` at or after `i`, or the length.
pub open spec fn find_eq(s: Seq<char>, i: int) -> int
    decreases s.len() - i,
{
    if 0 <= i < s.len() && s[i] != '=' {
        find_eq(s, i + 1)
    } else {
        i
    }
}

/// The key and value of `s` split on its first `=`, if it has one.
pub open spec fn split_on_eq(s: Seq<char>) -> Option<(Seq<char>, Seq<char>)> {
    let k = find_eq(s, 0);
    if k < s.len() {
        Some((s.subrange(0, k), s.subrange(k + 1, s.len() as int)))
    } else {
        None
    }
}

proof fn lemma_find_eq_bounds(s: Seq<char>, i: int)
    requires
        0 <= i <= s.len(),
    ensures
        i <= find_eq(s, i) <= s.len(),
    decreases s.len() - i,
{
    if i < s.len() && s[i] != '=' {
        lemma_find_eq_bounds(s, i + 1);
    }
}

impl Generic {
    pub fn with(key: String, value: String) -> (r: Generic)
        ensures
            r@ == (key@, value@),
    {
        Generic { key: key, value: value }
    }

    pub fn key(&self) -> (r: &String)
        ensures
            r@ == self@.0,
    {
        &self.key
    }

    pub fn value(&self) -> (r: &String)
        ensures
            r@ == self@.1,
    {
        &self.value
    }

    /// Splits the struct into its underlying components: a key and a value.
    pub fn split(self) -> (r: (String, String))
        ensures
            (r.0@, r.1@) == self@,
    {
        (self.key, self.value)
    }

    pub fn from(value: (String, String)) -> (r: Generic)
        ensures
            r@ == (value.0@, value.1@),
    {
        Generic { key: value.0, value: value.1 }
    }

    /// Reads `key=value`, splitting on the first `=`.
    pub fn from_str(s: &str) -> (r: Result<Generic, Error>)
        ensures
            match split_on_eq(s@) {
                Some(kv) => r matches Ok(g) && g@ == kv,
                None => r == Err::<Generic, Error>(Error::GenericParseMissingEq),
            },
    {
        let v = chars_of(s);
        let n = v.len();
        proof {
            lemma_find_eq_bounds(v@, 0);
        }
        let mut i: usize = 0;
        while i < n && v[i] != '='
            invariant
                n == v@.len(),
                i <= find_eq(v@, 0) <= n,
                find_eq(v@, i as int) == find_eq(v@, 0),
            decreases n - i,
        {
            proof {
                lemma_find_eq_bounds(v@, i + 1);
            }
            i = i + 1;
        }
        if i == n {
            return Err(Error::GenericParseMissingEq);
        }
        Ok(Generic { key: string_of(&v, 0, i), value: string_of(&v, i + 1, n) })
    }
}

/// The generics handed to a software model, in the order they were given.
pub struct Generics {
    inner: Vec<Generic>,
}

impl View for Generics {
    type V = Seq<(Seq<char>, Seq<char>)>;

    closed spec fn view(&self) -> Seq<(Seq<char>, Seq<char>)> {
        self.inner@.map_values(|g: Generic| g@)
    }
}

impl Generics {
    pub fn from(value: Vec<Generic>) -> (r: Generics)
        ensures
            r@ == value@.map_values(|g: Generic| g@),
    {
        Generics { inner: value }
    }

    pub fn items(&self) -> (r: &Vec<Generic>)
        ensures
            r@.map_values(|g: Generic| g@) == self@,
    {
        &self.inner
    }
}

} // verus!
