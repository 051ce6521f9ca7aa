//! The bridge between text and the null-terminated UTF-16 buffers that the
//! firmware's text interfaces use. Only ASCII text crosses it.

use crate::base::Status;
use vstd::prelude::*;
use vstd::string::is_ascii_spec_bytes;
use vstd::utf8::is_ascii_chars;

pub mod device_path;

pub use self::device_path::{create_file_device_node, parent_device_path};

verus! {

/// The index of the first zero unit at or behind `from`, or the buffer's
/// length where there is none.
pub open spec fn first_zero(s: Seq<u16>, from: int) -> int
    decreases s.len() - from,
{
    if from < 0 || from >= s.len() || s[from] == 0 {
        from
    } else {
        first_zero(s, from + 1)
    }
}

/// The number of units before the terminating zero; the whole buffer where
/// no zero ends it.
pub open spec fn utf16_len(s: Seq<u16>) -> int {
    first_zero(s, 0)
}

/// The units of the string that the buffer holds: those before the first zero.
pub open spec fn utf16_text(s: Seq<u16>) -> Seq<u16> {
    s.subrange(0, utf16_len(s))
}

/// Every unit is an ASCII code.
pub open spec fn ascii_units(s: Seq<u16>) -> bool {
    forall|i: int| 0 <= i < s.len() ==> #[trigger] s[i] < 128
}

/// Each unit as the character with its code.
pub open spec fn narrowed(s: Seq<u16>) -> Seq<char> {
    Seq::new(s.len(), |i: int| s[i] as char)
}

/// Each character as the unit with its code.
pub open spec fn widened(s: Seq<char>) -> Seq<u16> {
    Seq::new(s.len(), |i: int| s[i] as u16)
}

/// The buffer that holds an ASCII text: its characters widened, then a zero.
pub open spec fn encoded(s: Seq<char>) -> Seq<u16> {
    widened(s).push(0u16)
}

/// What a null-terminated UTF-16 string reads as: its text where every unit is
/// an ASCII code, an error otherwise.
pub open spec fn decoded(chars: Seq<u16>) -> Result<Seq<char>, Status> {
    if ascii_units(utf16_text(chars)) {
        Ok(narrowed(utf16_text(chars)))
    } else {
        Err(Status::InvalidParameter)
    }
}

/// The characters of a text that was read, or the error.
pub open spec fn text_of(r: Result<String, Status>) -> Result<Seq<char>, Status> {
    match r {
        Ok(s) => Ok(s@),
        Err(e) => Err(e),
    }
}

/// The first zero lies in the buffer or at its end, with no zero before it.
pub proof fn lemma_first_zero(s: Seq<u16>, from: int)
    requires
        0 <= from <= s.len(),
    ensures
        from <= first_zero(s, from) <= s.len(),
        forall|i: int| from <= i < first_zero(s, from) ==> #[trigger] s[i] != 0,
        first_zero(s, from) < s.len() ==> s[first_zero(s, from)] == 0,
    decreases s.len() - from,
{
    if from < s.len() && s[from] != 0 {
        lemma_first_zero(s, from + 1);
    }
}

/// The first zero is where a zero stands with none before it.
pub proof fn lemma_first_zero_is(s: Seq<u16>, from: int, n: int)
    requires
        0 <= from <= n <= s.len(),
        forall|i: int| from <= i < n ==> #[trigger] s[i] != 0,
        n < s.len() ==> s[n] == 0,
    ensures
        first_zero(s, from) == n,
    decreases n - from,
{
    if from < n {
        lemma_first_zero_is(s, from + 1, n);
    }
}

/// An ASCII text without a zero character, written to a buffer and read
/// back, is the same text.
pub proof fn lemma_ascii_round_trip(s: Seq<char>)
    requires
        is_ascii_chars(s),
        forall|i: int| 0 <= i < s.len() ==> #[trigger] s[i] != '\0',
    ensures
        utf16_len(encoded(s)) == s.len(),
        utf16_text(encoded(s)) == widened(s),
        ascii_units(utf16_text(encoded(s))),
        narrowed(utf16_text(encoded(s))) == s,
        decoded(encoded(s)) == Ok::<Seq<char>, Status>(s),
{
    let e = encoded(s);
    assert forall|i: int| 0 <= i < s.len() implies #[trigger] e[i] != 0 by {
        assert(s[i] != '\0');
        assert('\0' <= s[i] <= '\u{7f}');
    }
    lemma_first_zero_is(e, 0, s.len() as int);
    assert(utf16_text(e) =~= widened(s));
    assert forall|i: int| 0 <= i < s.len() implies #[trigger] widened(s)[i] < 128 by {
        assert('\0' <= s[i] <= '\u{7f}');
    }
    assert(narrowed(widened(s)) =~= s) by {
        assert forall|i: int| 0 <= i < s.len() implies narrowed(widened(s))[i] == s[i] by {
            assert('\0' <= s[i] <= '\u{7f}');
        }
    }
}

/// The length of the null-terminated string in `c`: the number of units
/// before the first zero. A buffer without a zero counts whole.
pub fn utf16_strlen(c: &[u16]) -> (len: usize)
    ensures
        len == utf16_len(c@),
        len <= c@.len(),
        forall|i: int| 0 <= i < len ==> #[trigger] c@[i] != 0,
        len < c@.len() ==> c@[len as int] == 0,
{
    proof {
        lemma_first_zero(c@, 0);
    }
    let mut len: usize = 0;
    while len < c.len() && c[len] != 0
        invariant
            len <= c.len(),
            first_zero(c@, 0) == first_zero(c@, len as int),
        decreases c.len() - len,
    {
        len += 1;
    }
    len
}

/// The reader shows the memory: whatever it gives for an index that lies in
/// the memory is the unit at that index.
pub open spec fn shows_units<F: Fn(usize) -> u16>(read: F, memory: Seq<u16>) -> bool {
    forall|at: usize, unit: u16| #[trigger]
        call_ensures(read, (at,), unit) && at < memory.len() ==> unit == memory[at as int]
}

/// Reading in order from the first unit, the reader can have given a unit
/// other than zero at every index before `at`: the reading comes to `at`.
pub open spec fn read_on<F: Fn(usize) -> u16>(read: F, at: usize) -> bool
    decreases at,
{
    at == 0 || (read_on(read, (at - 1) as usize) && exists|unit: u16| #[trigger]
        call_ensures(read, ((at - 1) as usize,), unit) && unit != 0)
}

/// Reading a memory that holds a zero comes to no index behind the first
/// zero.
pub proof fn lemma_read_on<F: Fn(usize) -> u16>(read: F, memory: Seq<u16>, at: usize)
    requires
        shows_units(read, memory),
        utf16_len(memory) < memory.len(),
        read_on(read, at),
    ensures
        at <= utf16_len(memory),
    decreases at,
{
    lemma_first_zero(memory, 0);
    if at > 0 {
        let before = (at - 1) as usize;
        lemma_read_on(read, memory, before);
        let unit = choose|unit: u16| #[trigger] call_ensures(read, (before,), unit) && unit != 0;
        assert(unit == memory[before as int]);
    }
}

/// Copies a null-terminated UTF-16 string out of a memory whose extent is not
/// known, such as the firmware's, its terminating zero included. The memory
/// is read through `read`, which gives the unit at an index.
///
/// The units are read in order up to the first zero, and none behind it: the
/// reader need only be callable at an index that the reading comes to. There
/// is no string where no zero is found below the largest index.
pub fn utf16_capture<F: Fn(usize) -> u16>(read: F) -> (r: Option<Vec<u16>>)
    requires
        forall|at: usize| read_on(read, at) ==> #[trigger] call_requires(read, (at,)),
    ensures
        r matches Some(v) ==> v@.len() > 0 && utf16_len(v@) == v@.len() - 1,
        forall|memory: Seq<u16>| #[trigger]
            shows_units(read, memory) && utf16_len(memory) < memory.len() && utf16_len(memory)
                < usize::MAX ==> (r matches Some(v) && v@ == utf16_text(memory).push(0u16)),
{
    let mut units: Vec<u16> = Vec::new();
    let mut at: usize = 0;
    proof {
        assert forall|memory: Seq<u16>| #[trigger]
            shows_units(read, memory) && utf16_len(memory) < memory.len() implies {
            &&& 0 <= utf16_len(memory)
            &&& units@ == memory.subrange(0, 0)
        } by {
            lemma_first_zero(memory, 0);
            assert(units@ =~= memory.subrange(0, 0));
        }
    }
    while at < usize::MAX
        invariant
            forall|at: usize| read_on(read, at) ==> #[trigger] call_requires(read, (at,)),
            read_on(read, at),
            units@.len() == at,
            forall|i: int| 0 <= i < at ==> #[trigger] units@[i] != 0,
            forall|memory: Seq<u16>| #[trigger]
                shows_units(read, memory) && utf16_len(memory) < memory.len() && utf16_len(memory)
                    < usize::MAX ==> {
                    &&& at <= utf16_len(memory)
                    &&& units@ == memory.subrange(0, at as int)
                },
        decreases usize::MAX - at,
    {
        let unit = read(at);
        units.push(unit);
        proof {
            assert forall|memory: Seq<u16>| #[trigger]
                shows_units(read, memory) && utf16_len(memory) < memory.len() && utf16_len(memory)
                    < usize::MAX implies {
                &&& unit == memory[at as int]
                &&& units@ == memory.subrange(0, at + 1)
                &&& unit == 0 ==> utf16_len(memory) == at
                &&& unit != 0 ==> at + 1 <= utf16_len(memory)
            } by {
                lemma_first_zero(memory, 0);
                assert(units@ =~= memory.subrange(0, at + 1));
                if unit == 0 {
                    lemma_first_zero_is(memory, 0, at as int);
                }
            }
        }
        if unit == 0 {
            proof {
                lemma_first_zero_is(units@, 0, at as int);
                assert forall|memory: Seq<u16>| #[trigger]
                    shows_units(read, memory) && utf16_len(memory) < memory.len() && utf16_len(
                        memory,
                    ) < usize::MAX implies units@ == utf16_text(memory).push(0u16) by {
                    assert(units@ =~= utf16_text(memory).push(0u16));
                }
            }
            return Some(units);
        }
        assert(read_on(read, (at + 1) as usize)) by {
            assert(call_ensures(read, (at,), unit) && unit != 0);
        }
        at += 1;
    }
    None
}

/// The text of a null-terminated UTF-16 string, where all of it is ASCII.
pub fn utf16_ptr_to_str(chars: &[u16]) -> (r: Result<String, Status>)
    ensures
        text_of(r) == decoded(chars@),
{
    let strlen = utf16_strlen(chars);
    let ghost text = utf16_text(chars@);
    let mut out = String::new();
    let mut i: usize = 0;
    while i < strlen
        invariant
            i <= strlen <= chars@.len(),
            strlen == utf16_len(chars@),
            text == utf16_text(chars@),
            out@ == narrowed(text.subrange(0, i as int)),
            ascii_units(text.subrange(0, i as int)),
        decreases strlen - i,
    {
        let unit = chars[i];
        if unit >= 128 {
            assert(text[i as int] >= 128);
            return Err(Status::InvalidParameter);
        }
        let byte: u8 = unit as u8;
        out.push(byte as char);
        i += 1;
        assert(out@ =~= narrowed(text.subrange(0, i as int)));
    }
    assert(text.subrange(0, strlen as int) =~= text);
    Ok(out)
}

/// The null-terminated UTF-16 string that holds a text, where all of the
/// text is ASCII.
pub fn str_to_utf16_ptr(chars: &str) -> (r: Result<Vec<u16>, Status>)
    ensures
        is_ascii_chars(chars@) ==> (r matches Ok(v) && v@ == encoded(chars@)),
        !is_ascii_chars(chars@) ==> r == Err::<Vec<u16>, Status>(Status::Unsupported),
{
    if !chars.is_ascii() {
        return Err(Status::Unsupported);
    }
    let bytes = chars.as_bytes();
    proof {
        is_ascii_spec_bytes(chars);
    }
    let mut out: Vec<u16> = Vec::new();
    let mut i: usize = 0;
    while i < bytes.len()
        invariant
            i <= bytes.len(),
            bytes@.len() == chars@.len(),
            is_ascii_chars(chars@),
            forall|j: int| 0 <= j < bytes.len() ==> bytes@[j] == chars@[j] as u8,
            out@ == widened(chars@.subrange(0, i as int)),
        decreases bytes.len() - i,
    {
        out.push(bytes[i] as u16);
        i += 1;
        assert(out@ =~= widened(chars@.subrange(0, i as int)));
    }
    assert(chars@.subrange(0, i as int) =~= chars@);
    out.push(0);
    Ok(out)
}

} // verus!
