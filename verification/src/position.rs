//! Mapping a line/character position onto a byte offset of the source
//! text: the cursor arrives as a position and the engine works in byte
//! offsets.

use vstd::prelude::*;
use vstd::string::StringSliceAdditionalSpecFns;

verus! {

/// The byte offset where line `line` starts, scanning for line feeds
/// from offset `i` on; `None` when the text has fewer lines.
pub open spec fn spec_line_start(bytes: Seq<u8>, line: int, i: int) -> Option<int>
    decreases line, bytes.len() - i,
{
    if line <= 0 {
        Some(i)
    } else if i < 0 || i >= bytes.len() {
        None
    } else if bytes[i] == 10 {
        spec_line_start(bytes, line - 1, i + 1)
    } else {
        spec_line_start(bytes, line, i + 1)
    }
}

/// The byte offset of the given line/character position: `character`
/// bytes past the start of line `line`, and `None` when the text is too
/// short for either.
pub open spec fn spec_position_to_byte_index(bytes: Seq<u8>, line: int, character: int) -> Option<
    int,
> {
    match spec_line_start(bytes, line, 0) {
        Some(start) => if start + character <= bytes.len() {
            Some(start + character)
        } else {
            None
        },
        None => None,
    }
}

/// Maps a line/character position onto a byte offset into `source`.
#[verifier::loop_isolation(false)]
pub fn position_to_byte_index(source: &str, line: u32, character: u32) -> (r: Option<usize>)
    ensures
        r == match spec_position_to_byte_index(
            source.spec_bytes(),
            line as int,
            character as int,
        ) {
            Some(ix) => Some(ix as usize),
            None => None,
        },
{
    let bytes = source.as_bytes();
    let n = bytes.len();
    let mut i: usize = 0;
    let mut remaining: u32 = line;
    while remaining > 0 && i < n
        invariant
            i <= n,
            n == source.spec_bytes().len(),
            bytes@ == source.spec_bytes(),
            spec_line_start(source.spec_bytes(), line as int, 0) == spec_line_start(
                source.spec_bytes(),
                remaining as int,
                i as int,
            ),
        decreases n - i,
    {
        if bytes[i] == 10 {
            remaining = remaining - 1;
        }
        i = i + 1;
    }
    if remaining > 0 {
        return None;
    }
    if character as usize <= n - i {
        Some(i + character as usize)
    } else {
        None
    }
}

} // verus!
