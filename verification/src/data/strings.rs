//! The game's string table (`LANGUAGE/lang00.dat`): a little-endian `u32`
//! count, that many `u32` offsets from the start of the file, and
//! zero-terminated strings at those offsets.

use vstd::prelude::*;

use super::units::{le_u32, read_le_u32};

verus! {

/// The text `String::from_utf8_lossy` makes of some bytes: the bytes read as
/// UTF-8, each invalid sequence replaced by U+FFFD.
pub uninterp spec fn utf8_lossy(bytes: Seq<u8>) -> Seq<char>;

/// Calls `String::from_utf8_lossy` and takes ownership of the result. Its
/// result is named `utf8_lossy` of the bytes; for bytes that are all ASCII,
/// which are valid UTF-8, the documentation gives the same text back, one
/// character per byte.
#[verifier::external_body]
fn lossy_string(bytes: &[u8]) -> (r: String)
    ensures
        r@ == utf8_lossy(bytes@),
        (forall|i: int| 0 <= i < bytes@.len() ==> bytes@[i] < 0x80) ==> r@ == bytes@.map_values(|b: u8| b as char),
{
    String::from_utf8_lossy(bytes).into_owned()
}

/// The little-endian `u32` at byte `pos`.
pub open spec fn u32_at(data: Seq<u8>, pos: int) -> int {
    le_u32(data[pos], data[pos + 1], data[pos + 2], data[pos + 3]) as int
}

/// Index of the first zero byte at or after `start`, or the end of the data.
pub open spec fn cstr_end(data: Seq<u8>, start: int) -> int
    decreases data.len() - start,
{
    if start >= data.len() || start < 0 {
        data.len() as int
    } else if data[start] == 0 {
        start
    } else {
        cstr_end(data, start + 1)
    }
}

/// The string the table holds at offset `off`: empty past the end of the
/// data, otherwise the bytes up to the next zero, decoded.
pub open spec fn string_at(data: Seq<u8>, off: int) -> Seq<char> {
    if off >= data.len() {
        Seq::empty()
    } else {
        utf8_lossy(data.subrange(off, cstr_end(data, off)))
    }
}

/// The strings a table file holds; none when the header or the offset list
/// is cut short.
pub open spec fn string_table_spec(data: Seq<u8>) -> Seq<Seq<char>> {
    if data.len() < 4 {
        Seq::empty()
    } else {
        let count = u32_at(data, 0);
        if data.len() < 4 + 4 * count {
            Seq::empty()
        } else {
            Seq::new(count as nat, |i: int| string_at(data, u32_at(data, 4 + 4 * i)))
        }
    }
}

/// The game's strings, by index.
pub struct StringTable {
    strings: Vec<String>,
}

impl View for StringTable {
    type V = Seq<Seq<char>>;

    closed spec fn view(&self) -> Seq<Seq<char>> {
        Seq::new(self.strings@.len(), |i: int| self.strings@[i]@)
    }
}

fn find_terminator(data: &[u8], start: usize) -> (r: usize)
    requires
        start <= data@.len(),
    ensures
        r == cstr_end(data@, start as int),
        start <= r <= data@.len(),
    decreases data@.len() - start,
{
    let mut i = start;
    while i < data.len()
        invariant
            start <= i <= data@.len(),
            cstr_end(data@, start as int) == cstr_end(data@, i as int),
        decreases data@.len() - i,
    {
        if data[i] == 0 {
            return i;
        }
        i += 1;
    }
    i
}

impl StringTable {
    /// Read a string table. A file too short for its header or its offset
    /// list gives an empty table; an offset past the end gives an empty
    /// string; a string without a terminator runs to the end of the file.
    pub fn from_bytes(data: &[u8]) -> (r: Self)
        ensures
            r@ == string_table_spec(data@),
    {
        if data.len() < 4 {
            return StringTable { strings: Vec::new() };
        }
        let count = read_le_u32(data[0], data[1], data[2], data[3]) as usize;
        if (data.len() as u64) < 4 + (count as u64) * 4 {
            return StringTable { strings: Vec::new() };
        }
        let mut strings: Vec<String> = Vec::new();
        let mut i: usize = 0;
        while i < count
            invariant
                i <= count,
                count == u32_at(data@, 0),
                data@.len() >= 4 + 4 * count,
                data@.len() == data.len(),
                data.len() <= usize::MAX,
                strings@.len() == i,
                forall|k: int| 0 <= k < i ==> (#[trigger] strings@[k])@ == string_at(data@, u32_at(data@, 4 + 4 * k)),
            decreases count - i,
        {
            let off_pos = 4 + i * 4;
            let offset = read_le_u32(data[off_pos], data[off_pos + 1], data[off_pos + 2], data[off_pos + 3]) as usize;
            if offset >= data.len() {
                strings.push(String::new());
            } else {
                let end = find_terminator(data, offset);
                let s = lossy_string(slice_range(data, offset, end));
                strings.push(s);
            }
            i += 1;
        }
        let r = StringTable { strings };
        assert(r@ =~= string_table_spec(data@));
        r
    }

    /// The string at `index`, if there is one.
    pub fn get(&self, index: usize) -> (r: Option<&str>)
        ensures
            index < self@.len() ==> r is Some && r->0@ == self@[index as int],
            index >= self@.len() ==> r is None,
    {
        if index < self.strings.len() {
            Some(self.strings[index].as_str())
        } else {
            None
        }
    }

    /// Number of strings.
    pub fn len(&self) -> (r: usize)
        ensures
            r == self@.len(),
    {
        self.strings.len()
    }

    /// Whether the table holds no strings.
    pub fn is_empty(&self) -> (r: bool)
        ensures
            r == (self@.len() == 0),
    {
        self.strings.len() == 0
    }
}

/// The bytes `data[start..end]`.
fn slice_range(data: &[u8], start: usize, end: usize) -> (r: &[u8])
    requires
        start <= end <= data@.len(),
    ensures
        r@ == data@.subrange(start as int, end as int),
{
    vstd::slice::slice_subrange(data, start, end)
}

} // verus!
