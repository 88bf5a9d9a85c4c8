//! Fixed-length arrays of ASCII characters.

use std::str::FromStr;

use vstd::prelude::*;

verus! {

/// The error returned when a character or byte is not ASCII.
#[derive(Clone, Copy, Debug, PartialEq, Eq, Structural)]
pub struct ToAsciiCharError;

/// A [`ToAsciiArrayError`]'s type.
#[derive(Clone, Copy, Debug, PartialEq, Eq, Structural)]
pub enum ToAsciiArrayErrorKind {
    /// A character was not ASCII.
    ToAsciiChar(ToAsciiCharError),
    /// The converting type has an invalid length: the given length, then the expected one.
    InvalidLength(usize, usize),
}

/// An error returned when attempting to convert a value into an [`AsciiArray`].
#[derive(Clone, Copy, Debug, PartialEq, Eq, Structural)]
pub struct ToAsciiArrayError(pub ToAsciiArrayErrorKind);

impl ToAsciiArrayError {
    /// Returns this error's type.
    pub fn kind(&self) -> (r: ToAsciiArrayErrorKind)
        ensures
            r == self.0,
    {
        self.0
    }
}

/// Whether a character is ASCII.
pub open spec fn is_ascii_char(c: char) -> bool {
    (c as u32) < 128
}

/// What parsing `s` as an array of `n` ASCII characters gives.
pub open spec fn spec_ascii_array(s: Seq<char>, n: usize) -> Result<Seq<u8>, ToAsciiArrayError> {
    if s.len() != n {
        Err(ToAsciiArrayError(ToAsciiArrayErrorKind::InvalidLength(s.len() as usize, n)))
    } else if exists|i: int| 0 <= i < s.len() && !is_ascii_char(#[trigger] s[i]) {
        Err(ToAsciiArrayError(ToAsciiArrayErrorKind::ToAsciiChar(ToAsciiCharError)))
    } else {
        Ok(s.map_values(|c: char| c as u8))
    }
}

/// ASCII codes written out as characters parse back to the same codes.
pub proof fn lemma_parse_codes_text(codes: Seq<u8>, n: usize)
    requires
        codes.len() == n,
        forall|i: int| 0 <= i < codes.len() ==> #[trigger] codes[i] < 128,
    ensures
        spec_ascii_array(codes.map_values(|b: u8| b as char), n) == Ok::<Seq<u8>, ToAsciiArrayError>(codes),
{
    let text = codes.map_values(|b: u8| b as char);
    assert forall|i: int| 0 <= i < text.len() implies is_ascii_char(#[trigger] text[i]) by {
        assert(text[i] == codes[i] as char);
    }
    assert(text.map_values(|c: char| c as u8) =~= codes);
}

/// An array of ASCII characters, held as their codes.
#[derive(Clone, Copy, Debug, Hash, PartialEq, Eq, PartialOrd, Ord)]
pub struct AsciiArray<const N: usize>([u8; N]);

impl<const N: usize> View for AsciiArray<N> {
    type V = Seq<u8>;

    closed spec fn view(&self) -> Seq<u8> {
        self.0@
    }
}

impl<const N: usize> AsciiArray<N> {
    /// An array has `N` characters.
    pub proof fn lemma_len(&self)
        ensures
            self@.len() == N,
    {
    }

    /// Two arrays are equal exactly when their characters are.
    pub proof fn lemma_view_injective(a: AsciiArray<N>, b: AsciiArray<N>)
        ensures
            (a@ == b@) == (a == b),
    {
        if a@ == b@ {
            vstd::array::axiom_array_ext_equal(a.0, b.0);
            assert(a.0 =~= b.0);
        }
    }

    /// Returns the code of the character at `index`.
    pub fn get(&self, index: usize) -> (r: u8)
        requires
            index < N,
        ensures
            r == self@[index as int],
    {
        self.0[index]
    }

    /// Returns whether two arrays hold the same characters.
    pub fn equals(&self, other: &AsciiArray<N>) -> (r: bool)
        ensures
            r == (*self == *other),
    {
        let mut i: usize = 0;
        while i < N
            invariant
                i <= N,
                self.0@.len() == N,
                other.0@.len() == N,
                forall|j: int| 0 <= j < i ==> self.0@[j] == other.0@[j],
            decreases N - i,
        {
            if self.0[i] != other.0[i] {
                return false;
            }
            i = i + 1;
        }
        proof {
            assert(self.0@ =~= other.0@);
            Self::lemma_view_injective(*self, *other);
        }
        true
    }

    /// Creates an array from ASCII characters.
    ///
    /// # Errors
    ///
    /// This function will return an error if a character is not ASCII.
    pub fn from_chars(value: [char; N]) -> (r: Result<AsciiArray<N>, ToAsciiCharError>)
        ensures
            (forall|i: int| 0 <= i < N ==> is_ascii_char(#[trigger] value@[i])) <==> r is Ok,
            r matches Ok(a) ==> a@ == value@.map_values(|c: char| c as u8),
    {
        let mut array: [u8; N] = vstd::array::array_fill_for_copy_types::<u8, N>(0);
        let mut i: usize = 0;
        while i < N
            invariant
                i <= N,
                array@.len() == N,
                value@.len() == N,
                forall|j: int| 0 <= j < i ==> is_ascii_char(#[trigger] value@[j]),
                forall|j: int| 0 <= j < i ==> array@[j] == value@[j] as u8,
            decreases N - i,
        {
            let c = value[i];
            if (c as u32) >= 128 {
                return Err(ToAsciiCharError);
            }
            array[i] = c as u8;
            i = i + 1;
        }
        let r = AsciiArray(array);
        assert(r@ =~= value@.map_values(|c: char| c as u8));
        Ok(r)
    }

    /// Creates an array from ASCII codes.
    ///
    /// # Errors
    ///
    /// This function will return an error if a byte is not an ASCII code.
    pub fn from_bytes(value: [u8; N]) -> (r: Result<AsciiArray<N>, ToAsciiCharError>)
        ensures
            (forall|i: int| 0 <= i < N ==> #[trigger] value@[i] < 128) <==> r is Ok,
            r matches Ok(a) ==> a@ == value@,
    {
        let mut i: usize = 0;
        while i < N
            invariant
                i <= N,
                value@.len() == N,
                forall|j: int| 0 <= j < i ==> #[trigger] value@[j] < 128,
            decreases N - i,
        {
            if value[i] >= 128 {
                return Err(ToAsciiCharError);
            }
            i = i + 1;
        }
        Ok(AsciiArray(value))
    }

    /// Parses an array from a string of exactly `N` ASCII characters.
    ///
    /// # Errors
    ///
    /// This function will return an error if the string has another length or holds a character
    /// that is not ASCII.
    pub fn parse(string: &str) -> (r: Result<AsciiArray<N>, ToAsciiArrayError>)
        ensures
            match spec_ascii_array(string@, N) {
                Ok(v) => r matches Ok(a) && a@ == v,
                Err(e) => r == Err::<AsciiArray<N>, ToAsciiArrayError>(e),
            },
    {
        let count = string.unicode_len();
        if count != N {
            return Err(ToAsciiArrayError(ToAsciiArrayErrorKind::InvalidLength(count, N)));
        }
        let mut array: [u8; N] = vstd::array::array_fill_for_copy_types::<u8, N>(0);
        let mut i: usize = 0;
        while i < N
            invariant
                i <= N,
                count == N,
                string@.len() == N,
                array@.len() == N,
                forall|j: int| 0 <= j < i ==> is_ascii_char(#[trigger] string@[j]),
                forall|j: int| 0 <= j < i ==> array@[j] == string@[j] as u8,
            decreases N - i,
        {
            let c = string.get_char(i);
            if (c as u32) >= 128 {
                return Err(ToAsciiArrayError(ToAsciiArrayErrorKind::ToAsciiChar(ToAsciiCharError)));
            }
            array[i] = c as u8;
            i = i + 1;
        }
        let r = AsciiArray(array);
        assert(r@ =~= string@.map_values(|c: char| c as u8));
        Ok(r)
    }

    /// Returns the characters of this array as a string.
    pub fn to_display_string(&self) -> (r: String)
        ensures
            r@ == self@.map_values(|b: u8| b as char),
    {
        let mut s = String::new();
        let mut i: usize = 0;
        while i < N
            invariant
                i <= N,
                self.0@.len() == N,
                s@ == self.0@.subrange(0, i as int).map_values(|b: u8| b as char),
            decreases N - i,
        {
            let b = self.0[i];
            s.push(b as char);
            assert(self.0@.subrange(0, i + 1) =~= self.0@.subrange(0, i as int).push(b));
            i = i + 1;
        }
        assert(self.0@.subrange(0, N as int) =~= self.0@);
        s
    }
}

impl<const N: usize> FromStr for AsciiArray<N> {
    type Err = ToAsciiArrayError;

    fn from_str(string: &str) -> (r: Result<AsciiArray<N>, ToAsciiArrayError>)
        ensures
            match spec_ascii_array(string@, N) {
                Ok(v) => r matches Ok(a) && a@ == v,
                Err(e) => r == Err::<AsciiArray<N>, ToAsciiArrayError>(e),
            },
    {
        AsciiArray::parse(string)
    }
}

} // verus!
