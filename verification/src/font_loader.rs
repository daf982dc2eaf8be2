//! The decisions of the loader that hands a font held in memory to the system's font
//! machinery: which file an enumerator stands on, which fragment of the buffer may be
//! read, and which interface an object answers to.

use vstd::prelude::*;

verus! {

/// Where the enumerator of the one font file of a collection stands.
#[derive(Clone, Copy, Debug, PartialEq, Eq, Structural)]
pub enum FontFileEnumeratorState {
    /// Before the file.
    Start,
    /// On the file.
    AtBuffer,
    /// Behind the file.
    End,
}

impl FontFileEnumeratorState {
    /// Where the enumerator stands after one step.
    pub open spec fn spec_next(&self) -> FontFileEnumeratorState {
        match *self {
            FontFileEnumeratorState::Start => FontFileEnumeratorState::AtBuffer,
            _ => FontFileEnumeratorState::End,
        }
    }

    /// Steps to the next file. Returns where the enumerator then stands and whether it
    /// stands on a file.
    pub fn move_next(&self) -> (moved: (FontFileEnumeratorState, bool))
        ensures
            moved.0 == self.spec_next(),
            moved.1 == (moved.0 == FontFileEnumeratorState::AtBuffer),
    {
        match *self {
            FontFileEnumeratorState::Start => (FontFileEnumeratorState::AtBuffer, true),
            FontFileEnumeratorState::AtBuffer => (FontFileEnumeratorState::End, false),
            FontFileEnumeratorState::End => (FontFileEnumeratorState::End, false),
        }
    }

    /// Tells whether the enumerator stands on a file that it can hand out.
    pub fn has_current_file(&self) -> (has: bool)
        ensures
            has == (*self == FontFileEnumeratorState::AtBuffer),
    {
        match *self {
            FontFileEnumeratorState::AtBuffer => true,
            _ => false,
        }
    }
}

/// The key under which the loader registers its one font file: the letters `MEMORY`.
pub open spec fn spec_font_file_key() -> Seq<u8> {
    seq![0x4Du8, 0x45u8, 0x4Du8, 0x4Fu8, 0x52u8, 0x59u8]
}

/// Gives the key under which the loader registers its one font file.
pub fn font_file_key() -> (key: [u8; 6])
    ensures
        key@ == spec_font_file_key(),
{
    let key: [u8; 6] = [0x4D, 0x45, 0x4D, 0x4F, 0x52, 0x59];
    assert(key@ =~= spec_font_file_key());
    key
}

/// Tells whether a reference key is that of the loader's font file.
pub fn is_font_file_key(reference_key: &[u8]) -> (matches: bool)
    ensures
        matches == (reference_key@ == spec_font_file_key()),
{
    let key: [u8; 6] = font_file_key();
    if reference_key.len() != 6 {
        return false;
    }
    let mut i: usize = 0;
    while i < 6
        invariant
            i <= 6,
            reference_key.len() == 6,
            key@ == spec_font_file_key(),
            forall|j: int| 0 <= j < i ==> reference_key[j] == key[j],
        decreases 6 - i,
    {
        if reference_key[i] != key[i] {
            return false;
        }
        i = i + 1;
    }
    assert(reference_key@ =~= spec_font_file_key());
    true
}

/// Tells whether a fragment of a file lies within the file.
pub fn fragment_in_bounds(buffer_length: u64, file_offset: u64, fragment_size: u64) -> (inside: bool)
    ensures
        inside == (file_offset <= buffer_length && file_offset + fragment_size <= buffer_length),
{
    file_offset <= buffer_length && fragment_size <= buffer_length - file_offset
}

/// The time that the two halves of a file time stand for.
pub open spec fn spec_file_time(high: u32, low: u32) -> int {
    high * 0x1_0000_0000 + low
}

/// Puts the two halves of a file time together.
pub fn file_time(high: u32, low: u32) -> (time: u64)
    ensures
        time == spec_file_time(high, low),
{
    let wide_high: u64 = high as u64;
    let wide_low: u64 = low as u64;
    assert((wide_high << 32) | wide_low == wide_high * 0x1_0000_0000 + wide_low) by (bit_vector)
        requires
            wide_high < 0x1_0000_0000,
            wide_low < 0x1_0000_0000,
    ;
    (wide_high << 32) | wide_low
}

/// Counts one more reference to an object. Returns the new count.
pub fn add_reference(count: usize) -> (new_count: usize)
    requires
        count < usize::MAX,
    ensures
        new_count == count + 1,
{
    count + 1
}

/// Counts one reference to an object less. Returns the new count and whether the object
/// is to be destroyed: when no reference is left.
pub fn release_reference(count: usize) -> (released: (usize, bool))
    requires
        count > 0,
    ensures
        released.0 == count - 1,
        released.1 == (count == 1),
{
    (count - 1, count == 1)
}

/// The identifier of an interface.
#[derive(Clone, Copy, Debug, PartialEq, Eq)]
pub struct Guid {
    pub data1: u32,
    pub data2: u16,
    pub data3: u16,
    pub data4: [u8; 8],
}

/// Whether two identifiers are the same, part by part.
pub open spec fn spec_guids_are_equal(a: Guid, b: Guid) -> bool {
    a.data1 == b.data1 && a.data2 == b.data2 && a.data3 == b.data3 && a.data4@ == b.data4@
}

/// Tells whether two identifiers are the same.
pub fn guids_are_equal(a: &Guid, b: &Guid) -> (equal: bool)
    ensures
        equal == spec_guids_are_equal(*a, *b),
{
    if a.data1 != b.data1 || a.data2 != b.data2 || a.data3 != b.data3 {
        return false;
    }
    let mut i: usize = 0;
    while i < 8
        invariant
            i <= 8,
            forall|j: int| 0 <= j < i ==> a.data4[j] == b.data4[j],
        decreases 8 - i,
    {
        if a.data4[i] != b.data4[i] {
            return false;
        }
        i = i + 1;
    }
    assert(a.data4@ =~= b.data4@);
    true
}

/// What an object answers when it is asked for an interface.
#[derive(Clone, Copy, Debug, PartialEq, Eq, Structural)]
pub enum QueryOutcome {
    /// There is nowhere to put the answer.
    InvalidPointer,
    /// The object has the interface and hands itself out.
    Found,
    /// The object has no such interface.
    NoInterface,
}

/// Decides what an object answers when it is asked for the interface `requested`: it has
/// the interface that every object has, and that of its own class.
pub fn query_interface(
    result_is_null: bool,
    requested: &Guid,
    unknown_interface: &Guid,
    class_interface: &Guid,
) -> (outcome: QueryOutcome)
    ensures
        outcome == if result_is_null {
            QueryOutcome::InvalidPointer
        } else if spec_guids_are_equal(*requested, *unknown_interface) || spec_guids_are_equal(
            *requested,
            *class_interface,
        ) {
            QueryOutcome::Found
        } else {
            QueryOutcome::NoInterface
        },
{
    if result_is_null {
        return QueryOutcome::InvalidPointer;
    }
    if guids_are_equal(requested, unknown_interface) || guids_are_equal(requested, class_interface) {
        return QueryOutcome::Found;
    }
    QueryOutcome::NoInterface
}

} // verus!
