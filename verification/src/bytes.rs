//! Byte buffers handed out by the engine, and a printable rendering of byte
//! strings in the style of ASCII escape sequences.

use vstd::prelude::*;

verus! {

/// An owned byte buffer returned by a point lookup.
pub struct Bytes {
    data: Vec<u8>,
}

impl View for Bytes {
    type V = Seq<u8>;

    closed spec fn view(&self) -> Seq<u8> {
        self.data@
    }
}

impl Bytes {
    pub(crate) fn from_vec(data: Vec<u8>) -> (r: Bytes)
        ensures
            r@ == data@,
    {
        Bytes { data }
    }

    /// The bytes themselves.
    pub fn as_ref(&self) -> (r: &[u8])
        ensures
            r@ == self@,
    {
        self.data.as_slice()
    }

    /// Surrender the buffer.
    pub fn into_vec(self) -> (r: Vec<u8>)
        ensures
            r@ == self@,
    {
        self.data
    }
}

/// A copy of an iterator's current key or value.
pub struct Slice {
    data: Vec<u8>,
}

impl View for Slice {
    type V = Seq<u8>;

    closed spec fn view(&self) -> Seq<u8> {
        self.data@
    }
}

impl Slice {
    pub(crate) fn from_vec(data: Vec<u8>) -> (r: Slice)
        ensures
            r@ == data@,
    {
        Slice { data }
    }

    /// The bytes themselves.
    pub fn as_ref(&self) -> (r: &[u8])
        ensures
            r@ == self@,
    {
        self.data.as_slice()
    }
}

/// The lowercase hexadecimal digit for `n`, which must be below 16.
pub open spec fn hex_digit(n: u8) -> char {
    if n < 10 {
        ((n + 48) as u8) as char
    } else {
        ((n + 87) as u8) as char
    }
}

/// How one byte renders: common escapes by name, printable ASCII as itself,
/// anything else as a two-digit hexadecimal escape.
pub open spec fn escaped_byte(b: u8) -> Seq<char> {
    if b == 9 {
        seq!['\\', 't']
    } else if b == 13 {
        seq!['\\', 'r']
    } else if b == 10 {
        seq!['\\', 'n']
    } else if b == 92 {
        seq!['\\', '\\']
    } else if b == 39 {
        seq!['\\', '\'']
    } else if b == 34 {
        seq!['\\', '"']
    } else if 32 <= b && b <= 126 {
        seq![b as char]
    } else {
        seq!['\\', 'x', hex_digit(b / 16), hex_digit(b % 16)]
    }
}

/// The escaped rendering of a byte string.
pub open spec fn escaped_bytes(s: Seq<u8>) -> Seq<char>
    decreases s.len(),
{
    if s.len() == 0 {
        Seq::empty()
    } else {
        escaped_byte(s[0]) + escaped_bytes(s.drop_first())
    }
}

/// The full rendering: the escaped bytes between double quotes.
pub open spec fn formatted_slice(s: Seq<u8>) -> Seq<char> {
    seq!['"'] + escaped_bytes(s) + seq!['"']
}

proof fn lemma_escaped_push(s: Seq<u8>, x: u8)
    ensures
        escaped_bytes(s.push(x)) == escaped_bytes(s) + escaped_byte(x),
    decreases s.len(),
{
    reveal_with_fuel(escaped_bytes, 3);
    if s.len() == 0 {
        assert(s.push(x).drop_first() =~= Seq::<u8>::empty());
        assert(s.push(x)[0] == x);
        assert(escaped_bytes(s.push(x)) =~= escaped_bytes(s) + escaped_byte(x));
    } else {
        assert(s.push(x).drop_first() =~= s.drop_first().push(x));
        lemma_escaped_push(s.drop_first(), x);
        assert(escaped_bytes(s.push(x)) =~= escaped_bytes(s) + escaped_byte(x));
    }
}

/// Relies on String::push: appends exactly the one given character.
#[verifier::external_body]
fn push_char(s: &mut String, c: char)
    ensures
        final(s)@ == old(s)@.push(c),
{
    s.push(c);
}

/// Render a byte string the way a debugger would: quoted, with escapes.
pub fn format_slice(s: &[u8]) -> (r: String)
    ensures
        r@ == formatted_slice(s@),
{
    let mut out = String::new();
    push_char(&mut out, '"');
    let n = s.len();
    let mut i: usize = 0;
    proof {
        assert(s@.take(0) =~= Seq::<u8>::empty());
        assert(out@ =~= seq!['"'] + escaped_bytes(s@.take(0)));
    }
    while i < n
        invariant
            i <= n,
            n == s@.len(),
            out@ == seq!['"'] + escaped_bytes(s@.take(i as int)),
        decreases n - i,
    {
        let b = *vstd::slice::slice_index_get(s, i);
        let ghost before = out@;
        if b == 9 {
            push_char(&mut out, '\\');
            push_char(&mut out, 't');
        } else if b == 13 {
            push_char(&mut out, '\\');
            push_char(&mut out, 'r');
        } else if b == 10 {
            push_char(&mut out, '\\');
            push_char(&mut out, 'n');
        } else if b == 92 {
            push_char(&mut out, '\\');
            push_char(&mut out, '\\');
        } else if b == 39 {
            push_char(&mut out, '\\');
            push_char(&mut out, '\'');
        } else if b == 34 {
            push_char(&mut out, '\\');
            push_char(&mut out, '"');
        } else if 32 <= b && b <= 126 {
            push_char(&mut out, b as char);
        } else {
            push_char(&mut out, '\\');
            push_char(&mut out, 'x');
            let hi = b / 16;
            let lo = b % 16;
            let hc = if hi < 10 {
                (hi + 48) as char
            } else {
                (hi + 87) as char
            };
            let lc = if lo < 10 {
                (lo + 48) as char
            } else {
                (lo + 87) as char
            };
            push_char(&mut out, hc);
            push_char(&mut out, lc);
        }
        proof {
            assert(out@ =~= before + escaped_byte(s@[i as int]));
            assert(s@.take(i + 1).drop_last() =~= s@.take(i as int));
            assert(s@.take(i + 1).last() == s@[i as int]);
            lemma_escaped_push(s@.take(i as int), s@[i as int]);
            assert(s@.take(i as int).push(s@[i as int]) =~= s@.take(i + 1));
            assert(out@ =~= seq!['"'] + escaped_bytes(s@.take(i + 1)));
        }
        i = i + 1;
    }
    push_char(&mut out, '"');
    proof {
        assert(s@.take(n as int) =~= s@);
        assert(out@ =~= formatted_slice(s@));
    }
    out
}

} // verus!
