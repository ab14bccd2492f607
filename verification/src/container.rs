//! Container structure: what must hold of a payload's bytes before the
//! extractor is let loose on them. Its TIFF and BMFF readers trust sizes and
//! offsets that the payload itself supplies: they follow the chain of TIFF
//! directories for as long as each names a successor, make room for as many
//! sub-directories as an entry declares, add the size of a BMFF box to the
//! position they stand at, and subtract the lengths of headers from it.

use vstd::prelude::*;
use vstd::string::StringSliceAdditionalSpecFns;
use vstd::utf8::encode_utf8;

verus! {

/// The 16-bit word at `at`, in the given byte order.
pub open spec fn word16(p: Seq<u8>, at: int, big_endian: bool) -> int {
    if big_endian {
        p[at] * 256 + p[at + 1]
    } else {
        p[at + 1] * 256 + p[at]
    }
}

/// The 32-bit word at `at`, in the given byte order.
pub open spec fn word32(p: Seq<u8>, at: int, big_endian: bool) -> int {
    if big_endian {
        word16(p, at, big_endian) * 65536 + word16(p, at + 2, big_endian)
    } else {
        word16(p, at + 2, big_endian) * 65536 + word16(p, at, big_endian)
    }
}

/// The 64-bit word at `at`, in the given byte order.
pub open spec fn word64(p: Seq<u8>, at: int, big_endian: bool) -> int {
    if big_endian {
        word32(p, at, big_endian) * 4294967296 + word32(p, at + 4, big_endian)
    } else {
        word32(p, at + 4, big_endian) * 4294967296 + word32(p, at, big_endian)
    }
}

/// Reads the 16-bit word at `at`.
fn read16(p: &[u8], at: usize, big_endian: bool) -> (v: u16)
    requires
        at + 2 <= p.len(),
    ensures
        v == word16(p@, at as int, big_endian),
{
    let a: u16 = p[at] as u16;
    let b: u16 = p[at + 1] as u16;
    if big_endian {
        a * 256 + b
    } else {
        b * 256 + a
    }
}

/// Reads the 32-bit word at `at`.
fn read32(p: &[u8], at: usize, big_endian: bool) -> (v: u32)
    requires
        at + 4 <= p.len(),
    ensures
        v == word32(p@, at as int, big_endian),
{
    let a: u32 = read16(p, at, big_endian) as u32;
    let b: u32 = read16(p, at + 2, big_endian) as u32;
    if big_endian {
        a * 65536 + b
    } else {
        b * 65536 + a
    }
}

/// Reads the 64-bit word at `at`.
fn read64(p: &[u8], at: usize, big_endian: bool) -> (v: u64)
    requires
        at + 8 <= p.len(),
    ensures
        v == word64(p@, at as int, big_endian),
{
    let a: u64 = read32(p, at, big_endian) as u64;
    let b: u64 = read32(p, at + 4, big_endian) as u64;
    if big_endian {
        a * 4294967296 + b
    } else {
        b * 4294967296 + a
    }
}

/// What the header of a TIFF file fixes: the byte order, whether offsets
/// are 64 bits wide, and where the first directory lies.
#[derive(Debug, Clone, Copy, PartialEq, Eq)]
pub struct TiffLayout {
    pub big_endian: bool,
    pub big_tiff: bool,
    pub first_ifd: u64,
}

/// The layout that a payload's header declares, or `None` where the payload
/// does not open with a complete TIFF header: `II` or `MM`, then 42 and a
/// 32-bit offset, or 43, the offset size 8, a zero and a 64-bit offset.
pub open spec fn tiff_layout(p: Seq<u8>) -> Option<TiffLayout> {
    if p.len() < 4 {
        None
    } else if !((p[0] == 0x49 && p[1] == 0x49) || (p[0] == 0x4d && p[1] == 0x4d)) {
        None
    } else {
        let big_endian = p[0] == 0x4d;
        let magic = word16(p, 2, big_endian);
        if magic == 42 {
            if p.len() < 8 {
                None
            } else {
                Some(
                    TiffLayout {
                        big_endian,
                        big_tiff: false,
                        first_ifd: word32(p, 4, big_endian) as u64,
                    },
                )
            }
        } else if magic == 43 {
            if p.len() < 16 || word16(p, 4, big_endian) != 8 || word16(p, 6, big_endian) != 0 {
                None
            } else {
                Some(
                    TiffLayout {
                        big_endian,
                        big_tiff: true,
                        first_ifd: word64(p, 8, big_endian) as u64,
                    },
                )
            }
        } else {
            None
        }
    }
}

/// The successor that the directory at `at` names, or `None` where no
/// complete directory can be read there. A directory is a count of entries
/// (16 bits, or 64 in a big TIFF), the entries (12 bytes each, or 20), and
/// the offset of its successor (32 bits, or 64); a successor of 0 ends the
/// chain.
pub open spec fn next_ifd(p: Seq<u8>, layout: TiffLayout, at: int) -> Option<int> {
    if layout.big_tiff {
        if at + 8 > p.len() {
            None
        } else {
            let link = at + 8 + 20 * word64(p, at, layout.big_endian);
            if link + 8 > p.len() {
                None
            } else {
                Some(word64(p, link, layout.big_endian))
            }
        }
    } else {
        if at + 2 > p.len() {
            None
        } else {
            let link = at + 2 + 12 * word16(p, at, layout.big_endian);
            if link + 4 > p.len() {
                None
            } else {
                Some(word32(p, link, layout.big_endian))
            }
        }
    }
}

/// The tag of an entry that lists sub-directories.
pub const SUBIFD_TAG: u16 = 0x014a;

/// The number of entries that the directory at `at` declares.
pub open spec fn entry_count(p: Seq<u8>, layout: TiffLayout, at: int) -> int {
    if layout.big_tiff {
        word64(p, at, layout.big_endian)
    } else {
        word16(p, at, layout.big_endian)
    }
}

/// Where entry `i` of the directory at `at` stands.
pub open spec fn entry_place(layout: TiffLayout, at: int, i: int) -> int {
    if layout.big_tiff {
        at + 8 + 20 * i
    } else {
        at + 2 + 12 * i
    }
}

/// The number of values that the entry at `place` declares: the word behind
/// its tag and its type.
pub open spec fn value_count(p: Seq<u8>, layout: TiffLayout, place: int) -> int {
    if layout.big_tiff {
        word64(p, place + 4, layout.big_endian)
    } else {
        word32(p, place + 4, layout.big_endian)
    }
}

/// The entry at `place` lists more sub-directories than the payload has
/// room for the offsets of, at four bytes each.
pub open spec fn overfull_entry(p: Seq<u8>, layout: TiffLayout, place: int) -> bool {
    word16(p, place, layout.big_endian) == SUBIFD_TAG && 4 * value_count(p, layout, place)
        > p.len()
}

/// No entry of the directory at `at` is overfull.
pub open spec fn entries_are_modest(p: Seq<u8>, layout: TiffLayout, at: int) -> bool {
    forall|i: int|
        0 <= i < entry_count(p, layout, at) ==> !overfull_entry(
            p,
            layout,
            #[trigger] entry_place(layout, at, i),
        )
}

/// Following successors from the directory at `at` comes to an end on
/// `fuel`: at a successor of 0, or where no directory can be read. Every
/// directory on the way is modest, and every move to a successor costs one
/// unit of fuel and one more for each entry of the directory that is left.
pub open spec fn chain_ends(p: Seq<u8>, layout: TiffLayout, at: int, fuel: nat) -> bool
    decreases fuel,
{
    match next_ifd(p, layout, at) {
        None => true,
        Some(next) => {
            &&& entries_are_modest(p, layout, at)
            &&& (next == 0 || (fuel > entry_count(p, layout, at) && chain_ends(
                p,
                layout,
                next,
                (fuel - entry_count(p, layout, at) - 1) as nat,
            )))
        },
    }
}

/// The chain of directories of a payload ends: it has no TIFF header, or
/// following successors from its first directory comes to an end on as much
/// fuel as the payload has bytes. Directories that do not overlap never
/// need more; a chain that does has come by some offset twice and goes
/// round for ever, or reads the same bytes as entries over and over.
pub open spec fn ifd_chain_ends(p: Seq<u8>) -> bool {
    match tiff_layout(p) {
        None => true,
        Some(layout) => chain_ends(p, layout, layout.first_ifd as int, p.len()),
    }
}

/// Reads the header of a TIFF file.
pub fn tiff_layout_of(payload: &[u8]) -> (layout: Option<TiffLayout>)
    ensures
        layout == tiff_layout(payload@),
{
    if payload.len() < 4 {
        return None;
    }
    let little = payload[0] == 0x49 && payload[1] == 0x49;
    let big_endian = payload[0] == 0x4d && payload[1] == 0x4d;
    if !little && !big_endian {
        return None;
    }
    let magic = read16(payload, 2, big_endian);
    if magic == 42 {
        if payload.len() < 8 {
            return None;
        }
        let first: u32 = read32(payload, 4, big_endian);
        Some(TiffLayout { big_endian, big_tiff: false, first_ifd: first as u64 })
    } else if magic == 43 {
        if payload.len() < 16 {
            return None;
        }
        if read16(payload, 4, big_endian) != 8 || read16(payload, 6, big_endian) != 0 {
            return None;
        }
        Some(TiffLayout { big_endian, big_tiff: true, first_ifd: read64(payload, 8, big_endian) })
    } else {
        None
    }
}

/// Reads the successor of the directory at `at`.
pub fn next_ifd_of(payload: &[u8], layout: TiffLayout, at: u64) -> (next: Option<u64>)
    ensures
        next matches Some(offset) ==> next_ifd(payload@, layout, at as int) == Some(offset as int),
        next is None ==> next_ifd(payload@, layout, at as int) is None,
{
    let len: u128 = payload.len() as u128;
    let start: u128 = at as u128;
    if layout.big_tiff {
        if start + 8 > len {
            return None;
        }
        let count: u128 = read64(payload, at as usize, layout.big_endian) as u128;
        let link: u128 = start + 8 + 20 * count;
        if link + 8 > len {
            return None;
        }
        Some(read64(payload, link as usize, layout.big_endian))
    } else {
        if start + 2 > len {
            return None;
        }
        let count: u128 = read16(payload, at as usize, layout.big_endian) as u128;
        let link: u128 = start + 2 + 12 * count;
        if link + 4 > len {
            return None;
        }
        let next: u32 = read32(payload, link as usize, layout.big_endian);
        Some(next as u64)
    }
}

/// Whether no entry of the directory at `at` is overfull.
fn entries_are_modest_at(payload: &[u8], layout: TiffLayout, at: u64, count: u64) -> (r: bool)
    requires
        next_ifd(payload@, layout, at as int) is Some,
        count == entry_count(payload@, layout, at as int),
    ensures
        r == entries_are_modest(payload@, layout, at as int),
{
    let len: u128 = payload.len() as u128;
    let mut i: u64 = 0;
    while i < count
        invariant
            next_ifd(payload@, layout, at as int) is Some,
            count == entry_count(payload@, layout, at as int),
            len == payload.len(),
            0 <= i <= count,
            forall|k: int|
                0 <= k < i ==> !overfull_entry(
                    payload@,
                    layout,
                    #[trigger] entry_place(layout, at as int, k),
                ),
        decreases count - i,
    {
        let place: usize = if layout.big_tiff {
            (at as u128 + 8 + 20 * (i as u128)) as usize
        } else {
            (at as u128 + 2 + 12 * (i as u128)) as usize
        };
        assert(place == entry_place(layout, at as int, i as int));
        if read16(payload, place, layout.big_endian) == SUBIFD_TAG {
            let values: u128 = if layout.big_tiff {
                read64(payload, place + 4, layout.big_endian) as u128
            } else {
                read32(payload, place + 4, layout.big_endian) as u128
            };
            if 4 * values > len {
                assert(overfull_entry(payload@, layout, entry_place(layout, at as int, i as int)));
                return false;
            }
        }
        i = i + 1;
    }
    true
}

/// Whether the chain of TIFF directories of a payload ends.
pub fn ifd_chain_is_finite(payload: &[u8]) -> (ok: bool)
    ensures
        ok == ifd_chain_ends(payload@),
{
    let layout = match tiff_layout_of(payload) {
        None => {
            return true;
        },
        Some(layout) => layout,
    };
    let mut at: u64 = layout.first_ifd;
    let mut fuel: usize = payload.len();
    loop
        invariant
            tiff_layout(payload@) == Some(layout),
            ifd_chain_ends(payload@) == chain_ends(payload@, layout, at as int, fuel as nat),
        decreases fuel,
    {
        match next_ifd_of(payload, layout, at) {
            None => {
                return true;
            },
            Some(next) => {
                assert(next_ifd(payload@, layout, at as int) is Some);
                assert(at + 2 <= payload.len());
                let count: u64 = if layout.big_tiff {
                    read64(payload, at as usize, layout.big_endian)
                } else {
                    read16(payload, at as usize, layout.big_endian) as u64
                };
                if !entries_are_modest_at(payload, layout, at, count) {
                    return false;
                }
                if next == 0 {
                    return true;
                }
                if fuel as u128 <= count as u128 {
                    return false;
                }
                fuel = fuel - (count as usize) - 1;
                at = next;
            },
        }
    }
}

/// At `at` stands what reads as a box header with a 64-bit size so large
/// that adding it to a position within the payload leaves the 64-bit range:
/// a 32-bit size of 1, four bytes of type, and the large size.
pub open spec fn oversized_box_at(p: Seq<u8>, at: int) -> bool {
    &&& 0 <= at
    &&& at + 16 <= p.len()
    &&& word32(p, at, true) == 1
    &&& word64(p, at + 8, true) + p.len() > u64::MAX
}

/// Nowhere in the payload stands an oversized box header.
pub open spec fn box_sizes_fit(p: Seq<u8>) -> bool {
    forall|at: int| !#[trigger] oversized_box_at(p, at)
}

/// Whether a payload is free of oversized box headers.
pub fn box_sizes_are_in_range(payload: &[u8]) -> (ok: bool)
    ensures
        ok == box_sizes_fit(payload@),
{
    if payload.len() < 16 {
        return true;
    }
    let last: usize = payload.len() - 16;
    let len: u128 = payload.len() as u128;
    let mut at: usize = 0;
    while at <= last
        invariant
            last == payload.len() - 16,
            len == payload.len(),
            0 <= at <= last + 1,
            forall|k: int| 0 <= k < at ==> !#[trigger] oversized_box_at(payload@, k),
        decreases last + 1 - at,
    {
        if read32(payload, at, true) == 1 {
            let large: u128 = read64(payload, at + 8, true) as u128;
            if large + len > 0xffff_ffff_ffff_ffff {
                assert(oversized_box_at(payload@, at as int));
                return false;
            }
        }
        at = at + 1;
    }
    true
}

/// The type of a box that carries a UUID, `uuid`, as a big-endian word.
pub const UUID_BOX_TYPE: u32 = 0x7575_6964;

/// The upper half of the UUID of a box that holds a manifest store.
pub const C2PA_UUID_HIGH: u64 = 0xd8fe_c3d6_1b0e_483c;

/// The lower half of that UUID.
pub const C2PA_UUID_LOW: u64 = 0x9297_5828_877e_c481;

/// The upper half of the UUID of a box that holds XMP.
pub const XMP_UUID_HIGH: u64 = 0xbe7a_cfcb_97a9_42e8;

/// The lower half of that UUID.
pub const XMP_UUID_LOW: u64 = 0x9c71_9994_91e3_afac;

/// How far behind the start of its box the purpose of a manifest box is
/// looked for, at most.
pub const PURPOSE_WINDOW: usize = 64;

/// The size that a box header at `at` declares, or `None` where no header
/// can be read there: the 32-bit size, or the 64-bit size behind the type
/// where that is 1, or the rest of the payload where it is 0.
pub open spec fn box_size_at(p: Seq<u8>, at: int) -> Option<int> {
    if at < 0 || at + 8 > p.len() {
        None
    } else if word32(p, at, true) == 1 {
        if at + 16 > p.len() {
            None
        } else {
            Some(word64(p, at + 8, true))
        }
    } else if word32(p, at, true) == 0 {
        Some(p.len() - at)
    } else {
        Some(word32(p, at, true))
    }
}

/// Where the UUID of a box at `at` stands: behind its header.
pub open spec fn uuid_place(p: Seq<u8>, at: int) -> int {
    if word32(p, at, true) == 1 {
        at + 16
    } else {
        at + 8
    }
}

/// At `at` stands a box of type `uuid` that carries the UUID of the two
/// given halves.
pub open spec fn is_uuid_box(p: Seq<u8>, at: int, high: u64, low: u64) -> bool {
    &&& box_size_at(p, at) is Some
    &&& word32(p, at + 4, true) == UUID_BOX_TYPE
    &&& uuid_place(p, at) + 16 <= p.len()
    &&& word64(p, uuid_place(p, at), true) == high
    &&& word64(p, uuid_place(p, at) + 8, true) == low
}

/// The purpose of a manifest box at `at` ends within its window and within
/// the box, with room for eight more bytes behind it: a zero byte stands at
/// some `n` from 28 bytes into the box on, and `n + 9` is within the size.
pub open spec fn purpose_fits(p: Seq<u8>, at: int, size: int) -> bool {
    exists|n: int|
        at + 28 <= n < at + 28 + PURPOSE_WINDOW && n < p.len() && #[trigger] p[n] == 0 && n + 9
            <= at + size
}

/// At `at` stands a box that is smaller than what its reader takes out of
/// it: an XMP box of less than 24 bytes, or a manifest box whose purpose
/// does not fit.
pub open spec fn cramped_box_at(p: Seq<u8>, at: int) -> bool {
    ||| is_uuid_box(p, at, XMP_UUID_HIGH, XMP_UUID_LOW) && box_size_at(p, at)->Some_0 < 24
    ||| is_uuid_box(p, at, C2PA_UUID_HIGH, C2PA_UUID_LOW) && !purpose_fits(
        p,
        at,
        box_size_at(p, at)->Some_0,
    )
}

/// Nowhere in the payload stands a cramped box.
pub open spec fn uuid_boxes_fit(p: Seq<u8>) -> bool {
    forall|at: int| !#[trigger] cramped_box_at(p, at)
}

/// Reads the size that a box header at `at` declares.
fn box_size_of(payload: &[u8], at: usize) -> (size: Option<u128>)
    ensures
        size matches Some(s) ==> box_size_at(payload@, at as int) == Some(s as int) && s
            <= u64::MAX,
        size is None ==> box_size_at(payload@, at as int) is None,
{
    let len: usize = payload.len();
    if len < 8 || at > len - 8 {
        return None;
    }
    let small: u32 = read32(payload, at, true);
    if small == 1 {
        if len < 16 || at > len - 16 {
            return None;
        }
        Some(read64(payload, at + 8, true) as u128)
    } else if small == 0 {
        Some((len - at) as u128)
    } else {
        Some(small as u128)
    }
}

/// Whether a `uuid` box with the given UUID stands at `at`.
fn is_uuid_box_at(payload: &[u8], at: usize, high: u64, low: u64) -> (r: bool)
    requires
        box_size_at(payload@, at as int) is Some,
    ensures
        r == is_uuid_box(payload@, at as int, high, low),
{
    let len: usize = payload.len();
    if read32(payload, at + 4, true) != UUID_BOX_TYPE {
        return false;
    }
    let place: usize = if read32(payload, at, true) == 1 {
        at + 16
    } else {
        at + 8
    };
    if len - place < 16 {
        return false;
    }
    read64(payload, place, true) == high && read64(payload, place + 8, true) == low
}

/// Whether the purpose of a manifest box at `at` fits.
fn purpose_fits_at(payload: &[u8], at: usize, size: u128) -> (r: bool)
    requires
        at + 8 <= payload.len(),
        size <= u64::MAX,
    ensures
        r == purpose_fits(payload@, at as int, size as int),
{
    let len: usize = payload.len();
    if len - at <= 28 {
        return false;
    }
    let first: usize = at + 28;
    let mut n: usize = first;
    let mut seen: usize = 0;
    while seen < PURPOSE_WINDOW && n < len
        invariant
            len == payload.len(),
            size <= u64::MAX,
            first == at + 28,
            n == first + seen,
            n <= len,
            seen <= PURPOSE_WINDOW,
            forall|k: int| first <= k < n ==> (#[trigger] payload@[k]) != 0,
        decreases len - n,
    {
        if payload[n] == 0 {
            let fits = n as u128 + 9 <= at as u128 + size;
            proof {
                if !fits {
                    assert forall|k: int|
                        at + 28 <= k < at + 28 + PURPOSE_WINDOW && k < len && (
                        #[trigger] payload@[k]) == 0 implies !(k + 9 <= at + size) by {
                        assert(k >= n);
                    }
                }
            }
            return fits;
        }
        n = n + 1;
        seen = seen + 1;
    }
    false
}

/// Whether a payload is free of cramped boxes.
pub fn uuid_boxes_are_roomy(payload: &[u8]) -> (ok: bool)
    ensures
        ok == uuid_boxes_fit(payload@),
{
    if payload.len() < 8 {
        return true;
    }
    let last: usize = payload.len() - 8;
    let mut at: usize = 0;
    while at <= last
        invariant
            last == payload.len() - 8,
            0 <= at <= last + 1,
            forall|k: int| 0 <= k < at ==> !#[trigger] cramped_box_at(payload@, k),
        decreases last + 1 - at,
    {
        match box_size_of(payload, at) {
            None => {},
            Some(size) => {
                if is_uuid_box_at(payload, at, XMP_UUID_HIGH, XMP_UUID_LOW) && size < 24 {
                    assert(cramped_box_at(payload@, at as int));
                    return false;
                }
                if is_uuid_box_at(payload, at, C2PA_UUID_HIGH, C2PA_UUID_LOW) && !purpose_fits_at(
                    payload,
                    at,
                    size,
                ) {
                    assert(cramped_box_at(payload@, at as int));
                    return false;
                }
            },
        }
        at = at + 1;
    }
    true
}

/// The boxes of a payload can be walked: none is oversized, none cramped.
pub open spec fn boxes_fit(p: Seq<u8>) -> bool {
    box_sizes_fit(p) && uuid_boxes_fit(p)
}

/// Whether the boxes of a payload can be walked.
pub fn boxes_are_walkable(payload: &[u8]) -> (ok: bool)
    ensures
        ok == boxes_fit(payload@),
{
    box_sizes_are_in_range(payload) && uuid_boxes_are_roomy(payload)
}

/// A byte with an ASCII capital letter turned into its small letter.
pub open spec fn folded(b: u8) -> u8 {
    if 65 <= b <= 90 {
        (b + 32) as u8
    } else {
        b
    }
}

/// `tag`, with its ASCII capitals turned into small letters, is `name`.
pub open spec fn folds_to(tag: Seq<u8>, name: Seq<u8>) -> bool {
    &&& tag.len() == name.len()
    &&& forall|i: int| 0 <= i < tag.len() ==> folded(#[trigger] tag[i]) == name[i]
}

/// `tag` holds a byte outside ASCII.
pub open spec fn has_high_byte(tag: Seq<u8>) -> bool {
    exists|i: int| 0 <= i < tag.len() && #[trigger] tag[i] >= 128
}

/// Whether `tag` folds to `name`.
fn folds(tag: &[u8], name: &[u8]) -> (r: bool)
    ensures
        r == folds_to(tag@, name@),
{
    if tag.len() != name.len() {
        return false;
    }
    let mut i: usize = 0;
    while i < tag.len()
        invariant
            tag.len() == name.len(),
            0 <= i <= tag.len(),
            forall|k: int| 0 <= k < i ==> folded(#[trigger] tag@[k]) == name@[k],
        decreases tag.len() - i,
    {
        let b: u8 = tag[i];
        let low: u8 = if 65 <= b && b <= 90 {
            b + 32
        } else {
            b
        };
        if low != name[i] {
            return false;
        }
        i = i + 1;
    }
    true
}

/// Whether `tag` holds a byte outside ASCII.
fn any_high_byte(tag: &[u8]) -> (r: bool)
    ensures
        r == has_high_byte(tag@),
{
    let mut i: usize = 0;
    while i < tag.len()
        invariant
            0 <= i <= tag.len(),
            forall|k: int| 0 <= k < i ==> (#[trigger] tag@[k]) < 128,
        decreases tag.len() - i,
    {
        if tag[i] >= 128 {
            return true;
        }
        i = i + 1;
    }
    false
}

/// The bytes are one of the types that the extractor reads as TIFF, small
/// and capital letters alike.
pub open spec fn is_tiff_type(t: Seq<u8>) -> bool {
    ||| folds_to(t, "tif".spec_bytes())
    ||| folds_to(t, "tiff".spec_bytes())
    ||| folds_to(t, "image/tiff".spec_bytes())
    ||| folds_to(t, "dng".spec_bytes())
    ||| folds_to(t, "image/dng".spec_bytes())
    ||| folds_to(t, "image/x-adobe-dng".spec_bytes())
    ||| folds_to(t, "arw".spec_bytes())
    ||| folds_to(t, "image/x-sony-arw".spec_bytes())
    ||| folds_to(t, "nef".spec_bytes())
    ||| folds_to(t, "image/x-nikon-nef".spec_bytes())
}

/// The bytes are one of the types that the extractor reads as BMFF, small
/// and capital letters alike.
pub open spec fn is_bmff_type(t: Seq<u8>) -> bool {
    ||| folds_to(t, "avif".spec_bytes())
    ||| folds_to(t, "heif".spec_bytes())
    ||| folds_to(t, "heic".spec_bytes())
    ||| folds_to(t, "mp4".spec_bytes())
    ||| folds_to(t, "m4a".spec_bytes())
    ||| folds_to(t, "mov".spec_bytes())
    ||| folds_to(t, "m4v".spec_bytes())
    ||| folds_to(t, "application/mp4".spec_bytes())
    ||| folds_to(t, "audio/mp4".spec_bytes())
    ||| folds_to(t, "image/avif".spec_bytes())
    ||| folds_to(t, "image/heic".spec_bytes())
    ||| folds_to(t, "image/heif".spec_bytes())
    ||| folds_to(t, "video/mp4".spec_bytes())
    ||| folds_to(t, "video/quicktime".spec_bytes())
    ||| folds_to(t, "video/x-m4v".spec_bytes())
}

/// The tag may lead the extractor to its TIFF reader. The extractor puts
/// the tag into lower case before it looks it up; for a tag within ASCII
/// that is the folding above, and a tag with anything else in it is taken
/// to name whatever it likes.
pub open spec fn may_name_tiff(tag: Seq<char>) -> bool {
    has_high_byte(encode_utf8(tag)) || is_tiff_type(encode_utf8(tag))
}

/// The tag may lead the extractor to its BMFF reader.
pub open spec fn may_name_bmff(tag: Seq<char>) -> bool {
    has_high_byte(encode_utf8(tag)) || is_bmff_type(encode_utf8(tag))
}

/// Whether a tag may name a TIFF container.
pub fn tag_may_name_tiff(tag: &str) -> (r: bool)
    ensures
        r == may_name_tiff(tag@),
{
    let t = tag.as_bytes();
    any_high_byte(t) || folds(t, "tif".as_bytes()) || folds(t, "tiff".as_bytes()) || folds(
        t,
        "image/tiff".as_bytes(),
    ) || folds(t, "dng".as_bytes()) || folds(t, "image/dng".as_bytes()) || folds(
        t,
        "image/x-adobe-dng".as_bytes(),
    ) || folds(t, "arw".as_bytes()) || folds(t, "image/x-sony-arw".as_bytes()) || folds(
        t,
        "nef".as_bytes(),
    ) || folds(t, "image/x-nikon-nef".as_bytes())
}

/// Whether a tag may name a BMFF container.
pub fn tag_may_name_bmff(tag: &str) -> (r: bool)
    ensures
        r == may_name_bmff(tag@),
{
    let t = tag.as_bytes();
    any_high_byte(t) || folds(t, "avif".as_bytes()) || folds(t, "heif".as_bytes()) || folds(
        t,
        "heic".as_bytes(),
    ) || folds(t, "mp4".as_bytes()) || folds(t, "m4a".as_bytes()) || folds(t, "mov".as_bytes())
        || folds(t, "m4v".as_bytes()) || folds(t, "application/mp4".as_bytes()) || folds(
        t,
        "audio/mp4".as_bytes(),
    ) || folds(t, "image/avif".as_bytes()) || folds(t, "image/heic".as_bytes()) || folds(
        t,
        "image/heif".as_bytes(),
    ) || folds(t, "video/mp4".as_bytes()) || folds(t, "video/quicktime".as_bytes()) || folds(
        t,
        "video/x-m4v".as_bytes(),
    )
}

/// The extractor's walk of `payload` under `tag` comes to an end: where the
/// tag may name a TIFF container the chain of directories ends on modest
/// entries, and where it may name a BMFF container no box is oversized or
/// cramped.
pub open spec fn walkable(tag: Seq<char>, payload: Seq<u8>) -> bool {
    &&& may_name_tiff(tag) ==> ifd_chain_ends(payload)
    &&& may_name_bmff(tag) ==> boxes_fit(payload)
}

/// Whether the extractor may walk `payload` under `tag`.
pub fn is_walkable(tag: &str, payload: &[u8]) -> (ok: bool)
    ensures
        ok == walkable(tag@, payload@),
{
    if tag_may_name_tiff(tag) && !ifd_chain_is_finite(payload) {
        return false;
    }
    if tag_may_name_bmff(tag) && !boxes_are_walkable(payload) {
        return false;
    }
    true
}

} // verus!
