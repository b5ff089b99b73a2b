//! Character sequences and strings of bounded length.
//!
//! Lengths are counted in characters (Unicode scalar values), never in bytes,
//! so a bound of `N` always leaves room for `N` characters whatever they are.

use vstd::prelude::*;

verus! {

/// The first `n` items of `s`, or all of `s` where it is no longer than that.
pub open spec fn prefix<T>(s: Seq<T>, n: nat) -> Seq<T> {
    if s.len() <= n {
        s
    } else {
        s.take(n as int)
    }
}

/// `s` cut or filled with trailing spaces to exactly `width` characters.
pub open spec fn fit(s: Seq<char>, width: nat) -> Seq<char> {
    Seq::new(
        width,
        |i: int|
            if i < s.len() {
                s[i]
            } else {
                ' '
            },
    )
}

/// `s` with leading spaces so that it ends at column `width`; where `s` is
/// longer than `width`, its first `width` characters.
pub open spec fn right_align(s: Seq<char>, width: nat) -> Seq<char> {
    if s.len() >= width {
        s.take(width as int)
    } else {
        Seq::new((width - s.len()) as nat, |i: int| ' ') + s
    }
}

/// The characters of `s`, in order.
pub fn chars_of(s: &str) -> (out: Vec<char>)
    ensures
        out@ == s@,
{
    broadcast use vstd::string::axiom_spec_iter;

    let mut out: Vec<char> = Vec::new();
    for c in it: s.chars()
        invariant
            it.seq() == s@,
            out@ == s@.take(it.index() as int),
    {
        out.push(c);
    }
    out
}

/// Whether two character vectors hold the same characters.
pub fn same_chars(a: &Vec<char>, b: &Vec<char>) -> (same: bool)
    ensures
        same == (a@ == b@),
{
    if a.len() != b.len() {
        return false;
    }
    let mut i: usize = 0;
    while i < a.len()
        invariant
            a.len() == b.len(),
            i <= a.len(),
            a@.take(i as int) == b@.take(i as int),
        decreases a.len() - i,
    {
        if a[i] != b[i] {
            return false;
        }
        i += 1;
    }
    assert(a@.take(a@.len() as int) == a@);
    assert(b@.take(b@.len() as int) == b@);
    true
}

/// A string of at most `N` characters.
#[derive(Debug)]
pub struct BoundedString<const N: usize> {
    chars: Vec<char>,
}

impl<const N: usize> View for BoundedString<N> {
    type V = Seq<char>;

    closed spec fn view(&self) -> Seq<char> {
        self.chars@
    }
}

impl<const N: usize> BoundedString<N> {
    #[verifier::type_invariant]
    spec fn within_bound(self) -> bool {
        self.chars@.len() <= N
    }

    /// The empty string.
    pub fn new() -> (s: Self)
        ensures
            s@ == Seq::<char>::empty(),
    {
        BoundedString { chars: Vec::new() }
    }

    /// The first `N` characters of `text`; what does not fit is left out.
    pub fn truncated(text: &str) -> (s: Self)
        ensures
            s@ == prefix(text@, N as nat),
    {
        let chars = chars_of(text);
        Self::from_range(&chars, 0, chars.len())
    }

    /// The first `N` characters of `src[start..end]`; what does not fit is left out.
    pub(crate) fn from_range(src: &Vec<char>, start: usize, end: usize) -> (s: Self)
        requires
            start <= end <= src@.len(),
        ensures
            s@ == prefix(src@.subrange(start as int, end as int), N as nat),
    {
        let ghost whole = src@.subrange(start as int, end as int);
        let stop: usize = if end - start <= N {
            end
        } else {
            start + N
        };
        let mut chars: Vec<char> = Vec::new();
        let mut i: usize = start;
        while i < stop
            invariant
                start <= i <= stop <= end <= src@.len(),
                stop - start <= N,
                whole == src@.subrange(start as int, end as int),
                chars@ == whole.take(i - start),
            decreases stop - i,
        {
            chars.push(src[i]);
            i += 1;
        }
        BoundedString { chars }
    }

    /// The number of characters held.
    pub fn len(&self) -> (n: usize)
        ensures
            n == self@.len(),
            n <= N,
    {
        proof {
            use_type_invariant(self);
        }
        self.chars.len()
    }

    /// The characters held, in order.
    pub fn as_chars(&self) -> (chars: &Vec<char>)
        ensures
            chars@ == self@,
            chars@.len() <= N,
    {
        proof {
            use_type_invariant(self);
        }
        &self.chars
    }

    /// Whether this string holds exactly the characters of `text`.
    pub fn matches(&self, text: &str) -> (same: bool)
        ensures
            same == (self@ == text@),
    {
        let other = chars_of(text);
        same_chars(&self.chars, &other)
    }
}

impl<const N: usize> Clone for BoundedString<N> {
    fn clone(&self) -> (copy: Self)
        ensures
            copy@ == self@,
    {
        proof {
            use_type_invariant(self);
        }
        let mut chars: Vec<char> = Vec::new();
        let mut i: usize = 0;
        while i < self.chars.len()
            invariant
                i <= self.chars.len(),
                chars@ == self.chars@.take(i as int),
            decreases self.chars.len() - i,
        {
            chars.push(self.chars[i]);
            i += 1;
        }
        BoundedString { chars }
    }
}

impl<const N: usize> PartialEq for BoundedString<N> {
    fn eq(&self, other: &Self) -> (same: bool)
    {
        same_chars(&self.chars, &other.chars)
    }
}

impl<const N: usize> vstd::std_specs::cmp::PartialEqSpecImpl for BoundedString<N> {
    open spec fn obeys_eq_spec() -> bool {
        true
    }

    open spec fn eq_spec(&self, other: &Self) -> bool {
        self@ == other@
    }
}

} // verus!
