//! A bounds-checked, immutable reader over a byte slice.
//!
//! Every read hands back the decoded value together with a new cursor placed just past
//! it, or `None` when too few bytes remain. The underlying bytes are never changed.

use vstd::prelude::*;

verus! {

/// Byte order of a multi-byte integer.
#[derive(Clone, Copy, Debug, PartialEq, Eq)]
pub enum Endian {
    Le,
    Be,
}

/// The 16-bit value stored at `p`.
pub open spec fn u16_at(d: Seq<u8>, p: int, e: Endian) -> int {
    match e {
        Endian::Le => d[p] + 256 * d[p + 1],
        Endian::Be => 256 * d[p] + d[p + 1],
    }
}

/// The 32-bit value stored at `p`.
pub open spec fn u32_at(d: Seq<u8>, p: int, e: Endian) -> int {
    match e {
        Endian::Le => u16_at(d, p, e) + 65536 * u16_at(d, p + 2, e),
        Endian::Be => 65536 * u16_at(d, p, e) + u16_at(d, p + 2, e),
    }
}

/// The 64-bit value stored at `p`.
pub open spec fn u64_at(d: Seq<u8>, p: int, e: Endian) -> int {
    match e {
        Endian::Le => u32_at(d, p, e) + 4294967296 * u32_at(d, p + 4, e),
        Endian::Be => 4294967296 * u32_at(d, p, e) + u32_at(d, p + 4, e),
    }
}

/// The `n` little-endian UTF-16 code units stored from `p` on.
pub open spec fn units_at(d: Seq<u8>, p: int, n: nat) -> Seq<u16> {
    Seq::new(n, |i: int| u16_at(d, p + 2 * i, Endian::Le) as u16)
}

/// A UTF-16 high (leading) surrogate.
pub open spec fn is_high_surrogate(u: u16) -> bool {
    0xD800 <= u < 0xDC00
}

/// A UTF-16 low (trailing) surrogate.
pub open spec fn is_low_surrogate(u: u16) -> bool {
    0xDC00 <= u < 0xE000
}

/// The Unicode scalar values that UTF-16 code units encode: a high surrogate followed by
/// a low one is one value, every other unit stands for itself, and each surrogate left
/// unpaired becomes U+FFFD.
pub open spec fn utf16_scalars(units: Seq<u16>) -> Seq<u32>
    decreases units.len(),
{
    if units.len() == 0 {
        Seq::empty()
    } else if units.len() >= 2 && is_high_surrogate(units[0]) && is_low_surrogate(units[1]) {
        seq![(0x10000 + (units[0] - 0xD800) * 0x400 + (units[1] - 0xDC00)) as u32]
            + utf16_scalars(units.subrange(2, units.len() as int))
    } else if is_high_surrogate(units[0]) || is_low_surrogate(units[0]) {
        seq![0xFFFDu32] + utf16_scalars(units.subrange(1, units.len() as int))
    } else {
        seq![units[0] as u32] + utf16_scalars(units.subrange(1, units.len() as int))
    }
}

/// The text of UTF-16 code units, decoded leniently.
pub open spec fn utf16_lossy_text(units: Seq<u16>) -> Seq<char> {
    utf16_scalars(units).map_values(|x: u32| x as char)
}

/// The text held by `n` UTF-16 code units stored from `p` on.
pub open spec fn utf16_text_at(d: Seq<u8>, p: int, n: nat) -> Seq<char> {
    utf16_lossy_text(units_at(d, p, n))
}

/// The texts of a vector of strings.
pub open spec fn texts(v: Seq<String>) -> Seq<Seq<char>> {
    v.map_values(|s: String| s@)
}

/// `acc` in front of the texts that `o` holds.
pub open spec fn prepend_texts(acc: Seq<Seq<char>>, o: Option<(Seq<Seq<char>>, int)>) -> Option<
    (Seq<Seq<char>>, int),
> {
    match o {
        Some((s, e)) => Some((acc + s, e)),
        None => None,
    }
}

/// Copies each string of `v`.
pub fn clone_texts(v: &Vec<String>) -> (r: Vec<String>)
    ensures
        texts(r@) == texts(v@),
{
    let mut out: Vec<String> = Vec::new();
    let mut i: usize = 0;
    while i < v.len()
        invariant
            i <= v@.len(),
            out@.len() == i,
            forall|k: int| 0 <= k < i ==> #[trigger] out@[k]@ == v@[k]@,
        decreases v@.len() - i,
    {
        let s = v[i].clone();
        out.push(s);
        i = i + 1;
    }
    proof {
        assert(texts(out@) =~= texts(v@));
    }
    out
}

/// Number of 100-nanosecond FILETIME ticks in one second.
pub const TICKS_PER_SECOND: u64 = 10000000;

/// Seconds from 1601-01-01 (the FILETIME epoch) to 1970-01-01 (the Unix epoch).
pub const EPOCH_DIFFERENCE_SECONDS: i64 = 11644473600;

/// Unix epoch seconds of a Windows FILETIME (whole seconds, rounded toward the past).
pub open spec fn unix_seconds(filetime: int) -> int {
    filetime / 10000000 - 11644473600
}

/// Relies on `String::from_utf16_lossy`: it decodes the code units as UTF-16 and replaces
/// each unpaired surrogate with U+FFFD, the replacement character.
#[verifier::external_body]
fn utf16_lossy(units: &[u16]) -> (r: String)
    ensures
        r@ == utf16_lossy_text(units@),
{
    String::from_utf16_lossy(units)
}

/// Converts a Windows FILETIME to seconds since the Unix epoch.
pub fn filetime_to_unixepoch(filetime: u64) -> (r: i64)
    ensures
        r as int == unix_seconds(filetime as int),
{
    let seconds = filetime / TICKS_PER_SECOND;
    assert(seconds <= 1844674407370) by {
        assert(filetime <= u64::MAX);
    }
    seconds as i64 - EPOCH_DIFFERENCE_SECONDS
}

/// An immutable position in a byte slice.
pub struct ByteCursor<'a> {
    pub data: &'a [u8],
    pub pos: usize,
}

impl<'a> ByteCursor<'a> {
    /// The position lies within the slice.
    pub open spec fn wf(&self) -> bool {
        self.pos <= self.data@.len()
    }

    /// `c` reads the same bytes as `self`, from position `p`.
    pub open spec fn moved_to(&self, c: ByteCursor<'a>, p: int) -> bool {
        &&& c.data@ == self.data@
        &&& c.pos == p
    }

    /// A cursor at the start of `data`.
    pub fn new(data: &'a [u8]) -> (r: ByteCursor<'a>)
        ensures
            r.wf(),
            r.data@ == data@,
            r.pos == 0,
    {
        ByteCursor { data, pos: 0 }
    }

    /// A cursor at position `pos` of `data`, if that lies within it.
    pub fn at(data: &'a [u8], pos: usize) -> (r: Option<ByteCursor<'a>>)
        ensures
            r is Some <==> pos <= data@.len(),
            r matches Some(c) ==> c.wf() && c.data@ == data@ && c.pos == pos,
    {
        if pos <= data.len() {
            Some(ByteCursor { data, pos })
        } else {
            None
        }
    }

    /// Number of bytes left after the position.
    pub fn remaining(&self) -> (r: usize)
        requires
            self.wf(),
        ensures
            r == self.data@.len() - self.pos,
    {
        self.data.len() - self.pos
    }

    /// Moves past `n` bytes.
    pub fn skip(&self, n: usize) -> (r: Option<ByteCursor<'a>>)
        requires
            self.wf(),
        ensures
            r is Some <==> self.pos + n <= self.data@.len(),
            r matches Some(c) ==> c.wf() && self.moved_to(c, self.pos + n),
    {
        if n <= self.data.len() - self.pos {
            Some(ByteCursor { data: self.data, pos: self.pos + n })
        } else {
            None
        }
    }

    /// The next `n` bytes.
    pub fn take(&self, n: usize) -> (r: Option<(&'a [u8], ByteCursor<'a>)>)
        requires
            self.wf(),
        ensures
            r is Some <==> self.pos + n <= self.data@.len(),
            r matches Some((b, c)) ==> {
                &&& c.wf()
                &&& self.moved_to(c, self.pos + n)
                &&& b@ == self.data@.subrange(self.pos as int, self.pos + n)
            },
    {
        if n <= self.data.len() - self.pos {
            let end = self.pos + n;
            let b = vstd::slice::slice_subrange(self.data, self.pos, end);
            Some((b, ByteCursor { data: self.data, pos: end }))
        } else {
            None
        }
    }

    /// The next byte.
    pub fn read_u8(&self) -> (r: Option<(u8, ByteCursor<'a>)>)
        requires
            self.wf(),
        ensures
            r is Some <==> self.pos + 1 <= self.data@.len(),
            r matches Some((v, c)) ==> {
                &&& c.wf()
                &&& self.moved_to(c, self.pos + 1)
                &&& v == self.data@[self.pos as int]
            },
    {
        if self.pos < self.data.len() {
            Some((self.data[self.pos], ByteCursor { data: self.data, pos: self.pos + 1 }))
        } else {
            None
        }
    }

    /// The next 16-bit integer.
    pub fn read_u16(&self, e: Endian) -> (r: Option<(u16, ByteCursor<'a>)>)
        requires
            self.wf(),
        ensures
            r is Some <==> self.pos + 2 <= self.data@.len(),
            r matches Some((v, c)) ==> {
                &&& c.wf()
                &&& self.moved_to(c, self.pos + 2)
                &&& v as int == u16_at(self.data@, self.pos as int, e)
            },
    {
        if self.data.len() - self.pos < 2 {
            return None;
        }
        let b0 = self.data[self.pos] as u16;
        let b1 = self.data[self.pos + 1] as u16;
        let v = match e {
            Endian::Le => b0 + b1 * 256,
            Endian::Be => b0 * 256 + b1,
        };
        Some((v, ByteCursor { data: self.data, pos: self.pos + 2 }))
    }

    /// The next 32-bit integer.
    pub fn read_u32(&self, e: Endian) -> (r: Option<(u32, ByteCursor<'a>)>)
        requires
            self.wf(),
        ensures
            r is Some <==> self.pos + 4 <= self.data@.len(),
            r matches Some((v, c)) ==> {
                &&& c.wf()
                &&& self.moved_to(c, self.pos + 4)
                &&& v as int == u32_at(self.data@, self.pos as int, e)
            },
    {
        if self.data.len() - self.pos < 4 {
            return None;
        }
        let (first, c) = self.read_u16(e).unwrap();
        let (second, c) = c.read_u16(e).unwrap();
        let v = match e {
            Endian::Le => first as u32 + second as u32 * 65536,
            Endian::Be => first as u32 * 65536 + second as u32,
        };
        Some((v, c))
    }

    /// The next 64-bit integer.
    pub fn read_u64(&self, e: Endian) -> (r: Option<(u64, ByteCursor<'a>)>)
        requires
            self.wf(),
        ensures
            r is Some <==> self.pos + 8 <= self.data@.len(),
            r matches Some((v, c)) ==> {
                &&& c.wf()
                &&& self.moved_to(c, self.pos + 8)
                &&& v as int == u64_at(self.data@, self.pos as int, e)
            },
    {
        if self.data.len() - self.pos < 8 {
            return None;
        }
        let (first, c) = self.read_u32(e).unwrap();
        let (second, c) = c.read_u32(e).unwrap();
        let v = match e {
            Endian::Le => first as u64 + second as u64 * 4294967296,
            Endian::Be => first as u64 * 4294967296 + second as u64,
        };
        Some((v, c))
    }

    /// The next little-endian FILETIME, as seconds since the Unix epoch.
    pub fn read_filetime(&self) -> (r: Option<(i64, ByteCursor<'a>)>)
        requires
            self.wf(),
        ensures
            r is Some <==> self.pos + 8 <= self.data@.len(),
            r matches Some((v, c)) ==> {
                &&& c.wf()
                &&& self.moved_to(c, self.pos + 8)
                &&& v as int == unix_seconds(u64_at(self.data@, self.pos as int, Endian::Le))
            },
    {
        match self.read_u64(Endian::Le) {
            Some((ft, c)) => Some((filetime_to_unixepoch(ft), c)),
            None => None,
        }
    }

    /// The next `n` little-endian UTF-16 code units, decoded leniently to text.
    pub fn read_utf16(&self, n: usize) -> (r: Option<(String, ByteCursor<'a>)>)
        requires
            self.wf(),
        ensures
            r is Some <==> self.pos + 2 * n <= self.data@.len(),
            r matches Some((s, c)) ==> {
                &&& c.wf()
                &&& self.moved_to(c, self.pos + 2 * n)
                &&& s@ == utf16_text_at(self.data@, self.pos as int, n as nat)
            },
    {
        if n > (self.data.len() - self.pos) / 2 {
            return None;
        }
        let mut units: Vec<u16> = Vec::new();
        let mut c = ByteCursor { data: self.data, pos: self.pos };
        let mut i: usize = 0;
        while i < n
            invariant
                i <= n,
                self.wf(),
                self.pos + 2 * n <= self.data@.len(),
                c.wf(),
                self.moved_to(c, self.pos + 2 * i),
                units@ =~= units_at(self.data@, self.pos as int, i as nat),
            decreases n - i,
        {
            let (u, next) = c.read_u16(Endian::Le).unwrap();
            units.push(u);
            c = next;
            i = i + 1;
        }
        let s = utf16_lossy(units.as_slice());
        Some((s, c))
    }
}

} // verus!
