//! Stripped thumbnails: the blur preview Telegram embeds inside a message.
//!
//! Expanding one is no conversion: it is `header + payload + FFD9`, with
//! exactly two header bytes patched, the height and the width.

use vstd::prelude::*;
use crate::media::jpeg_header::{HEADER, HEIGHT_OFFSET, WIDTH_OFFSET};

verus! {

/// The JPEG a stripped payload `[1, height, width, scan…]` expands to, or
/// `None` when it is not one: shorter than three bytes, or a first byte that
/// is not the format marker `1`.
pub open spec fn expanded(stripped: Seq<u8>) -> Option<Seq<u8>> {
    if stripped.len() < 3 || stripped[0] != 1 {
        None
    } else {
        Some(
            HEADER@.update(HEIGHT_OFFSET as int, stripped[1]).update(WIDTH_OFFSET as int, stripped[2])
                + stripped.skip(3) + seq![0xffu8, 0xd9u8],
        )
    }
}

/// Expand a stripped payload into a real JPEG.
///
/// Returns `None` when the payload is not one, rather than handing the input
/// back, which is not a JPEG and must not be written as one.
pub fn expand(stripped: &[u8]) -> (r: Option<Vec<u8>>)
    ensures
        match r {
            Some(v) => expanded(stripped@) == Some(v@),
            None => expanded(stripped@) is None,
        },
{
    if stripped.len() < 3 || stripped[0] != 1 {
        return None;
    }
    let mut out: Vec<u8> = Vec::new();
    let mut i: usize = 0;
    while i < 623
        invariant
            i <= 623,
            out@ == HEADER@.take(i as int),
        decreases 623 - i,
    {
        out.push(HEADER[i]);
        assert(HEADER@.take(i + 1) == HEADER@.take(i as int).push(HEADER@[i as int]));
        i += 1;
    }
    assert(HEADER@.take(623) == HEADER@);
    out.set(HEIGHT_OFFSET, stripped[1]);
    out.set(WIDTH_OFFSET, stripped[2]);
    let ghost head = out@;
    let mut k: usize = 3;
    while k < stripped.len()
        invariant
            3 <= k <= stripped.len(),
            out@ == head + stripped@.subrange(3, k as int),
        decreases stripped.len() - k,
    {
        out.push(stripped[k]);
        assert(stripped@.subrange(3, k + 1) == stripped@.subrange(3, k as int).push(stripped@[k as int]));
        k += 1;
    }
    assert(stripped@.subrange(3, stripped@.len() as int) == stripped@.skip(3));
    out.push(0xff);
    out.push(0xd9);
    Some(out)
}

/// An expanded thumbnail is a JPEG: it opens with the SOI marker `FF D8`,
/// closes with the EOI marker `FF D9`, and is the header, the payload after
/// its three leading bytes and the two-byte footer, with no header byte
/// changed but the height's and the width's.
pub proof fn law_expanded_is_a_jpeg(stripped: Seq<u8>)
    requires
        expanded(stripped) is Some,
    ensures
        ({
            let out = expanded(stripped)->0;
            &&& out.len() == 623 + stripped.len() - 3 + 2
            &&& out[0] == 0xff && out[1] == 0xd8
            &&& out[out.len() - 2] == 0xff && out[out.len() - 1] == 0xd9
            &&& out[HEIGHT_OFFSET as int] == stripped[1]
            &&& out[WIDTH_OFFSET as int] == stripped[2]
            &&& forall|i: int| 0 <= i < 623 && i != HEIGHT_OFFSET && i != WIDTH_OFFSET ==> out[i] == #[trigger] HEADER@[i]
            &&& out.subrange(623, out.len() - 2) == stripped.skip(3)
        }),
{
    let out = expanded(stripped)->0;
    assert(HEADER@.len() == 623);
    assert(HEADER@[0] == 0xff && HEADER@[1] == 0xd8);
    assert(out.subrange(623, out.len() - 2) =~= stripped.skip(3));
}

} // verus!
