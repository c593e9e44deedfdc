//! The ZIP archive around a CAP file.
use vstd::prelude::*;

use crate::bytes::same_bytes;
use crate::cap::CapError;

verus! {

/// Components of a load file, in the order in which they are loaded (GPCS
/// v2.3.1 §C.2). `Debug.cap` is not one of them.
pub const LFDB_COMPONENTS: usize = 11;

/// Stored without compression.
pub const METHOD_STORED: u16 = 0;

/// DEFLATE.
pub const METHOD_DEFLATE: u16 = 8;

/// End of the central directory.
pub const SIG_EOCD: u32 = 0x0605_4b50;

/// An entry of the central directory.
pub const SIG_CDH: u32 = 0x0201_4b50;

/// A local file header.
pub const SIG_LFH: u32 = 0x0403_4b50;

/// Shortest end record.
const EOCD_MIN: usize = 22;

/// Longest comment of an archive.
const COMMENT_MAX: usize = 65535;

/// `Header.cap`
pub const HEADER_CAP: [u8; 10] = [0x48, 0x65, 0x61, 0x64, 0x65, 0x72, 0x2E, 0x63, 0x61, 0x70];

/// `Directory.cap`
pub const DIRECTORY_CAP: [u8; 13] = [
    0x44,
    0x69,
    0x72,
    0x65,
    0x63,
    0x74,
    0x6F,
    0x72,
    0x79,
    0x2E,
    0x63,
    0x61,
    0x70,
];

/// `Import.cap`
pub const IMPORT_CAP: [u8; 10] = [0x49, 0x6D, 0x70, 0x6F, 0x72, 0x74, 0x2E, 0x63, 0x61, 0x70];

/// `Applet.cap`
pub const APPLET_CAP: [u8; 10] = [0x41, 0x70, 0x70, 0x6C, 0x65, 0x74, 0x2E, 0x63, 0x61, 0x70];

/// `Class.cap`
pub const CLASS_CAP: [u8; 9] = [0x43, 0x6C, 0x61, 0x73, 0x73, 0x2E, 0x63, 0x61, 0x70];

/// `Method.cap`
pub const METHOD_CAP: [u8; 10] = [0x4D, 0x65, 0x74, 0x68, 0x6F, 0x64, 0x2E, 0x63, 0x61, 0x70];

/// `StaticField.cap`
pub const STATIC_FIELD_CAP: [u8; 15] = [
    0x53,
    0x74,
    0x61,
    0x74,
    0x69,
    0x63,
    0x46,
    0x69,
    0x65,
    0x6C,
    0x64,
    0x2E,
    0x63,
    0x61,
    0x70,
];

/// `Export.cap`
pub const EXPORT_CAP: [u8; 10] = [0x45, 0x78, 0x70, 0x6F, 0x72, 0x74, 0x2E, 0x63, 0x61, 0x70];

/// `ConstantPool.cap`
pub const CONSTANT_POOL_CAP: [u8; 16] = [
    0x43,
    0x6F,
    0x6E,
    0x73,
    0x74,
    0x61,
    0x6E,
    0x74,
    0x50,
    0x6F,
    0x6F,
    0x6C,
    0x2E,
    0x63,
    0x61,
    0x70,
];

/// `RefLocation.cap`
pub const REF_LOCATION_CAP: [u8; 15] = [
    0x52,
    0x65,
    0x66,
    0x4C,
    0x6F,
    0x63,
    0x61,
    0x74,
    0x69,
    0x6F,
    0x6E,
    0x2E,
    0x63,
    0x61,
    0x70,
];

/// `Descriptor.cap`
pub const DESCRIPTOR_CAP: [u8; 14] = [
    0x44,
    0x65,
    0x73,
    0x63,
    0x72,
    0x69,
    0x70,
    0x74,
    0x6F,
    0x72,
    0x2E,
    0x63,
    0x61,
    0x70,
];

/// Where the bytes of a component are in the archive, and how they are packed.
#[derive(Debug, Clone, Copy, PartialEq, Eq, Structural)]
pub struct CompLoc {
    /// Compression method.
    pub method: u16,
    /// Where the file's data start.
    pub data_off: usize,
    /// Their length in the archive.
    pub comp_size: usize,
    /// Their length in the load file.
    pub uncomp_size: usize,
}

/// The name of a component.
pub open spec fn component_name(i: int) -> Seq<u8> {
    if i == 0 {
        HEADER_CAP@
    } else if i == 1 {
        DIRECTORY_CAP@
    } else if i == 2 {
        IMPORT_CAP@
    } else if i == 3 {
        APPLET_CAP@
    } else if i == 4 {
        CLASS_CAP@
    } else if i == 5 {
        METHOD_CAP@
    } else if i == 6 {
        STATIC_FIELD_CAP@
    } else if i == 7 {
        EXPORT_CAP@
    } else if i == 8 {
        CONSTANT_POOL_CAP@
    } else if i == 9 {
        REF_LOCATION_CAP@
    } else {
        DESCRIPTOR_CAP@
    }
}

/// A path separator.
pub open spec fn is_separator(b: u8) -> bool {
    b == 0x2F || b == 0x5C
}

/// What follows the last separator of a path.
pub open spec fn basename(path: Seq<u8>) -> Seq<u8>
    decreases path.len(),
{
    if path.len() == 0 || is_separator(path.last()) {
        Seq::empty()
    } else {
        basename(path.drop_last()).push(path.last())
    }
}

/// The component that an entry of the archive is, from `i` on.
pub open spec fn component_from(base: Seq<u8>, i: int) -> Option<int>
    decreases LFDB_COMPONENTS - i,
{
    if i >= LFDB_COMPONENTS {
        None
    } else if base == component_name(i) {
        Some(i)
    } else {
        component_from(base, i + 1)
    }
}

/// The component that an entry of the archive is, by the last part of its path.
pub open spec fn component_of(path: Seq<u8>) -> Option<int> {
    component_from(basename(path), 0)
}

/// Two bytes, the low one first.
pub open spec fn le16(s: Seq<u8>, at: int) -> Option<u16> {
    if 0 <= at && at + 2 <= s.len() {
        Some((s[at] + s[at + 1] * 256) as u16)
    } else {
        None
    }
}

/// Four bytes, the low one first.
pub open spec fn le32(s: Seq<u8>, at: int) -> Option<u32> {
    if 0 <= at && at + 4 <= s.len() {
        Some(
            (s[at] + s[at + 1] * 0x100 + s[at + 2] * 0x1_0000 + s[at + 3] * 0x100_0000) as u32,
        )
    } else {
        None
    }
}

/// The last end record between `limit` and `i`.
pub open spec fn end_record_from(zip: Seq<u8>, i: int, limit: int) -> Option<int>
    decreases i - limit + 1,
{
    if i < limit {
        None
    } else if le32(zip, i) == Some(SIG_EOCD) {
        Some(i)
    } else {
        end_record_from(zip, i - 1, limit)
    }
}

/// The last end record of an archive that leaves room for a comment.
pub open spec fn end_record(zip: Seq<u8>) -> Option<int> {
    if zip.len() < 22 {
        None
    } else {
        let last = zip.len() - 22;
        end_record_from(
            zip,
            last,
            if last > 65535 {
                last - 65535
            } else {
                0
            },
        )
    }
}

/// Where the data of a file start, given its local header.
pub open spec fn data_start(zip: Seq<u8>, local: int) -> Option<int> {
    match (le32(zip, local), le16(zip, local + 26), le16(zip, local + 28)) {
        (Some(sig), Some(name_len), Some(extra_len)) => {
            let start = local + 30 + name_len + extra_len;
            if sig == SIG_LFH && start <= zip.len() {
                Some(start)
            } else {
                None
            }
        },
        _ => None,
    }
}

/// One entry of the central directory.
pub struct DirEntry {
    pub name: Seq<u8>,
    pub method: u16,
    pub comp_size: u32,
    pub uncomp_size: u32,
    pub local: u32,
    /// Where the next entry starts.
    pub next: int,
}

/// The entry at `pos`; nothing where there is no whole one.
pub open spec fn entry_at(zip: Seq<u8>, pos: int) -> Option<DirEntry> {
    if le32(zip, pos) != Some(SIG_CDH) || pos + 46 > zip.len() {
        None
    } else {
        let name_len = le16(zip, pos + 28)->Some_0;
        let extra_len = le16(zip, pos + 30)->Some_0;
        let comment_len = le16(zip, pos + 32)->Some_0;
        let end = pos + 46 + name_len;
        if end > zip.len() || end + extra_len + comment_len > usize::MAX {
            None
        } else {
            Some(
                DirEntry {
                    name: zip.subrange(pos + 46, end),
                    method: le16(zip, pos + 10)->Some_0,
                    comp_size: le32(zip, pos + 20)->Some_0,
                    uncomp_size: le32(zip, pos + 24)->Some_0,
                    local: le32(zip, pos + 42)->Some_0,
                    next: end + extra_len + comment_len,
                },
            )
        }
    }
}

/// The components that `total` entries from `pos` on name, added to those already
/// found; the first entry of a component counts.
pub open spec fn directory(
    zip: Seq<u8>,
    pos: int,
    total: nat,
    found: Seq<Option<CompLoc>>,
) -> Result<Seq<Option<CompLoc>>, CapError>
    decreases total,
{
    if total == 0 {
        Ok(found)
    } else {
        match entry_at(zip, pos) {
            None => Err(CapError::Malformed),
            Some(e) => match component_of(e.name) {
                None => directory(zip, e.next, (total - 1) as nat, found),
                Some(i) => if found[i] is Some {
                    directory(zip, e.next, (total - 1) as nat, found)
                } else {
                    match data_start(zip, e.local as int) {
                        None => Err(CapError::Malformed),
                        Some(start) => directory(
                            zip,
                            e.next,
                            (total - 1) as nat,
                            found.update(
                                i,
                                Some(
                                    CompLoc {
                                        method: e.method,
                                        data_off: start as usize,
                                        comp_size: e.comp_size as usize,
                                        uncomp_size: e.uncomp_size as usize,
                                    },
                                ),
                            ),
                        ),
                    }
                },
            },
        }
    }
}

/// No component.
pub open spec fn no_components() -> Seq<Option<CompLoc>> {
    Seq::new(LFDB_COMPONENTS as nat, |i: int| None)
}

/// The components of an archive.
pub open spec fn components_in(zip: Seq<u8>) -> Result<Seq<Option<CompLoc>>, CapError> {
    match end_record(zip) {
        None => Err(CapError::NotAZip),
        Some(end) => directory(
            zip,
            le32(zip, end + 16)->Some_0 as int,
            le16(zip, end + 10)->Some_0 as nat,
            no_components(),
        ),
    }
}

fn read_u16(b: &[u8], at: usize) -> (r: Option<u16>)
    ensures
        r == le16(b@, at as int),
{
    if b.len() < 2 || at > b.len() - 2 {
        return None;
    }
    Some(b[at] as u16 + b[at + 1] as u16 * 256)
}

fn read_u32(b: &[u8], at: usize) -> (r: Option<u32>)
    ensures
        r == le32(b@, at as int),
{
    if b.len() < 4 || at > b.len() - 4 {
        return None;
    }
    Some(
        b[at] as u32 + b[at + 1] as u32 * 0x100 + b[at + 2] as u32 * 0x1_0000 + b[at + 3] as u32
            * 0x100_0000,
    )
}

/// Finds the last end record.
fn find_eocd(zip: &[u8]) -> (r: Option<usize>)
    ensures
        match end_record(zip@) {
            Some(i) => r matches Some(n) && n == i && i + 22 <= zip.len(),
            None => r is None,
        },
{
    if zip.len() < EOCD_MIN {
        return None;
    }
    let last: usize = zip.len() - EOCD_MIN;
    let limit: usize = if last > COMMENT_MAX {
        last - COMMENT_MAX
    } else {
        0
    };
    let mut i: usize = last;
    loop
        invariant
            limit <= i <= last,
            last + 22 == zip@.len(),
            end_record(zip@) == end_record_from(zip@, i as int, limit as int),
        decreases i,
    {
        match read_u32(zip, i) {
            Some(sig) => {
                if sig == SIG_EOCD {
                    return Some(i);
                }
            },
            None => {},
        }
        if i == limit {
            assert(end_record_from(zip@, i - 1, limit as int) is None);
            return None;
        }
        i = i - 1;
    }
}

/// Finds where the data of a file start.
fn local_data_offset(zip: &[u8], local_off: usize) -> (r: Result<usize, CapError>)
    ensures
        match data_start(zip@, local_off as int) {
            Some(start) => r matches Ok(n) && n == start,
            None => r matches Err(e) && e == CapError::Malformed,
        },
{
    if zip.len() < 30 || local_off > zip.len() - 30 {
        return Err(CapError::Malformed);
    }
    let sig: u32 = match read_u32(zip, local_off) {
        Some(v) => v,
        None => return Err(CapError::Malformed),
    };
    let name_len: u16 = match read_u16(zip, local_off + 26) {
        Some(v) => v,
        None => return Err(CapError::Malformed),
    };
    let extra_len: u16 = match read_u16(zip, local_off + 28) {
        Some(v) => v,
        None => return Err(CapError::Malformed),
    };
    let room: usize = zip.len() - (local_off + 30);
    let skip: usize = name_len as usize + extra_len as usize;
    if sig != SIG_LFH || skip > room {
        return Err(CapError::Malformed);
    }
    Ok(local_off + 30 + skip)
}

/// The last part of a path.
fn base_of(name: &[u8]) -> (r: &[u8])
    ensures
        r@ == basename(name@),
{
    let mut i: usize = name.len();
    assert(name@.take(i as int) =~= name@);
    assert(basename(name@) =~= basename(name@.take(i as int)) + name@.skip(i as int));
    while i > 0
        invariant
            i <= name@.len(),
            basename(name@) == basename(name@.take(i as int)) + name@.skip(i as int),
        decreases i,
    {
        let b: u8 = name[i - 1];
        assert(name@.take(i as int).last() == b);
        if b == 0x2F || b == 0x5C {
            let r: &[u8] = &name[i..name.len()];
            assert(r@ =~= basename(name@));
            return r;
        }
        proof {
            assert(name@.take(i as int).drop_last() =~= name@.take(i - 1));
            assert(basename(name@.take(i as int)) + name@.skip(i as int) =~= basename(
                name@.take(i - 1),
            ) + name@.skip(i - 1));
        }
        i = i - 1;
    }
    assert(name@.skip(0) =~= name@);
    assert(basename(name@) =~= name@);
    name
}

/// The component that an entry of the archive is, by the last part of its path.
pub fn component_index(name: &[u8]) -> (r: Option<usize>)
    ensures
        match component_of(name@) {
            Some(i) => r matches Some(n) && n == i && 0 <= i < LFDB_COMPONENTS,
            None => r is None,
        },
{
    let base: &[u8] = base_of(name);
    proof {
        reveal_with_fuel(component_from, 12);
    }
    if same_bytes(base, &HEADER_CAP) {
        Some(0)
    } else if same_bytes(base, &DIRECTORY_CAP) {
        Some(1)
    } else if same_bytes(base, &IMPORT_CAP) {
        Some(2)
    } else if same_bytes(base, &APPLET_CAP) {
        Some(3)
    } else if same_bytes(base, &CLASS_CAP) {
        Some(4)
    } else if same_bytes(base, &METHOD_CAP) {
        Some(5)
    } else if same_bytes(base, &STATIC_FIELD_CAP) {
        Some(6)
    } else if same_bytes(base, &EXPORT_CAP) {
        Some(7)
    } else if same_bytes(base, &CONSTANT_POOL_CAP) {
        Some(8)
    } else if same_bytes(base, &REF_LOCATION_CAP) {
        Some(9)
    } else if same_bytes(base, &DESCRIPTOR_CAP) {
        Some(10)
    } else {
        None
    }
}

/// Finds every component of an archive.
pub(crate) fn walk_zip(zip: &[u8]) -> (r: Result<[Option<CompLoc>; LFDB_COMPONENTS], CapError>)
    ensures
        match r {
            Ok(locs) => components_in(zip@) == Ok::<Seq<Option<CompLoc>>, CapError>(locs@),
            Err(e) => components_in(zip@) == Err::<Seq<Option<CompLoc>>, CapError>(e),
        },
{
    let eocd: usize = match find_eocd(zip) {
        Some(n) => n,
        None => return Err(CapError::NotAZip),
    };
    let total: usize = match read_u16(zip, eocd + 10) {
        Some(v) => v as usize,
        None => return Err(CapError::Malformed),
    };
    let cd_off: usize = match read_u32(zip, eocd + 16) {
        Some(v) => v as usize,
        None => return Err(CapError::Malformed),
    };
    let mut locs: [Option<CompLoc>; LFDB_COMPONENTS] = [None; LFDB_COMPONENTS];
    assert(locs@ =~= no_components());
    let mut pos: usize = cd_off;
    let mut i: usize = 0;
    while i < total
        invariant
            i <= total,
            components_in(zip@) == directory(zip@, pos as int, (total - i) as nat, locs@),
        decreases total - i,
    {
        if zip.len() < 46 || pos > zip.len() - 46 {
            return Err(CapError::Malformed);
        }
        match read_u32(zip, pos) {
            Some(sig) => {
                if sig != SIG_CDH {
                    return Err(CapError::Malformed);
                }
            },
            None => return Err(CapError::Malformed),
        }
        let method: u16 = match read_u16(zip, pos + 10) {
            Some(v) => v,
            None => return Err(CapError::Malformed),
        };
        let comp_size: usize = match read_u32(zip, pos + 20) {
            Some(v) => v as usize,
            None => return Err(CapError::Malformed),
        };
        let uncomp_size: usize = match read_u32(zip, pos + 24) {
            Some(v) => v as usize,
            None => return Err(CapError::Malformed),
        };
        let name_len: usize = match read_u16(zip, pos + 28) {
            Some(v) => v as usize,
            None => return Err(CapError::Malformed),
        };
        let extra_len: usize = match read_u16(zip, pos + 30) {
            Some(v) => v as usize,
            None => return Err(CapError::Malformed),
        };
        let comment_len: usize = match read_u16(zip, pos + 32) {
            Some(v) => v as usize,
            None => return Err(CapError::Malformed),
        };
        let local_off: usize = match read_u32(zip, pos + 42) {
            Some(v) => v as usize,
            None => return Err(CapError::Malformed),
        };
        let name_start: usize = pos + 46;
        if name_len > zip.len() - name_start {
            return Err(CapError::Malformed);
        }
        let name_end: usize = name_start + name_len;
        let next: usize = match name_end.checked_add(extra_len) {
            Some(p) => match p.checked_add(comment_len) {
                Some(q) => q,
                None => return Err(CapError::Malformed),
            },
            None => return Err(CapError::Malformed),
        };
        let name: &[u8] = &zip[name_start..name_end];
        let ghost entry = entry_at(zip@, pos as int)->Some_0;
        assert(name@ =~= entry.name);
        if let Some(idx) = component_index(name) {
            if locs[idx].is_none() {
                let data_off: usize = local_data_offset(zip, local_off)?;
                locs[idx] = Some(CompLoc { method, data_off, comp_size, uncomp_size });
            }
        }
        pos = next;
        i = i + 1;
    }
    Ok(locs)
}

} // verus!
