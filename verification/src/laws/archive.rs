//! CAP files: which files of an archive are loaded, in which order, and what they say.
use vstd::prelude::*;

use crate::cap::{cap_of, component_bytes};
use crate::cap::components::{
    applet_list, applets_of, header_of, import_list, imports_of, AppletRecord,
};
use crate::cap::inflate::{blank_window, flow_bytes, unpacked};
use crate::cap::lfdb::{
    block_header, block_of, components_from, content, header_of_block, size_from,
};
use crate::cap::zip::{
    basename, component_from, component_of, components_in, data_start, directory, end_record,
    end_record_from, entry_at, le16, le32, no_components, APPLET_CAP, CLASS_CAP, CONSTANT_POOL_CAP,
    CompLoc, DESCRIPTOR_CAP, DIRECTORY_CAP, DirEntry, EXPORT_CAP, HEADER_CAP, IMPORT_CAP,
    METHOD_CAP, REF_LOCATION_CAP, STATIC_FIELD_CAP,
};
use crate::laws::octets::{
    lemma_number_1, lemma_number_2, lemma_number_3, lemma_number_4, number, number_le, spells,
};

verus! {

// ---- Names -----------------------------------------------------------------

/// Neither a slash nor a backslash.
pub open spec fn no_separator(name: Seq<u8>) -> bool {
    forall|i: int| 0 <= i < name.len() ==> #[trigger] name[i] != 0x2F && name[i] != 0x5C
}

/// Nothing, or a path that ends in a slash or a backslash.
pub open spec fn is_directory(dir: Seq<u8>) -> bool {
    dir.len() > 0 ==> dir.last() == 0x2F || dir.last() == 0x5C
}

/// The last part of a path is what stands behind its last separator.
pub proof fn law_last_part_of_a_path(dir: Seq<u8>, name: Seq<u8>)
    requires
        is_directory(dir),
        no_separator(name),
    ensures
        basename(dir + name) == name,
    decreases name.len(),
{
    let path = dir + name;
    if name.len() == 0 {
        assert(path =~= dir);
        assert(basename(path) =~= name);
    } else {
        assert(name[name.len() - 1] != 0x2F && name[name.len() - 1] != 0x5C);
        assert(no_separator(name.drop_last())) by {
            assert forall|i: int| 0 <= i < name.drop_last().len() implies #[trigger]
                name.drop_last()[i] != 0x2F && name.drop_last()[i] != 0x5C by {
                assert(name[i] != 0x2F && name[i] != 0x5C);
            }
        }
        law_last_part_of_a_path(dir, name.drop_last());
        assert(path.drop_last() =~= dir + name.drop_last());
        assert(basename(path) =~= name);
    }
}

/// The place of each file of a CAP archive in the load file, by its name, in whichever
/// directory it lies. A file of any other name is not loaded.
pub proof fn law_component_order(dir: Seq<u8>, name: Seq<u8>)
    requires
        is_directory(dir),
        no_separator(name),
    ensures
        spells(name, "Header.cap"@) ==> component_of(dir + name) == Some(0int),
        spells(name, "Directory.cap"@) ==> component_of(dir + name) == Some(1int),
        spells(name, "Import.cap"@) ==> component_of(dir + name) == Some(2int),
        spells(name, "Applet.cap"@) ==> component_of(dir + name) == Some(3int),
        spells(name, "Class.cap"@) ==> component_of(dir + name) == Some(4int),
        spells(name, "Method.cap"@) ==> component_of(dir + name) == Some(5int),
        spells(name, "StaticField.cap"@) ==> component_of(dir + name) == Some(6int),
        spells(name, "Export.cap"@) ==> component_of(dir + name) == Some(7int),
        spells(name, "ConstantPool.cap"@) ==> component_of(dir + name) == Some(8int),
        spells(name, "RefLocation.cap"@) ==> component_of(dir + name) == Some(9int),
        spells(name, "Descriptor.cap"@) ==> component_of(dir + name) == Some(10int),
        component_of(dir + name) is Some ==> {
            ||| spells(name, "Header.cap"@)
            ||| spells(name, "Directory.cap"@)
            ||| spells(name, "Import.cap"@)
            ||| spells(name, "Applet.cap"@)
            ||| spells(name, "Class.cap"@)
            ||| spells(name, "Method.cap"@)
            ||| spells(name, "StaticField.cap"@)
            ||| spells(name, "Export.cap"@)
            ||| spells(name, "ConstantPool.cap"@)
            ||| spells(name, "RefLocation.cap"@)
            ||| spells(name, "Descriptor.cap"@)
        },
{
    law_last_part_of_a_path(dir, name);
    reveal_strlit("Header.cap");
    reveal_strlit("Directory.cap");
    reveal_strlit("Import.cap");
    reveal_strlit("Applet.cap");
    reveal_strlit("Class.cap");
    reveal_strlit("Method.cap");
    reveal_strlit("StaticField.cap");
    reveal_strlit("Export.cap");
    reveal_strlit("ConstantPool.cap");
    reveal_strlit("RefLocation.cap");
    reveal_strlit("Descriptor.cap");
    reveal_with_fuel(component_from, 13);
    assert(spells(name, "Header.cap"@) <==> name =~= HEADER_CAP@);
    assert(spells(name, "Directory.cap"@) <==> name =~= DIRECTORY_CAP@);
    assert(spells(name, "Import.cap"@) <==> name =~= IMPORT_CAP@);
    assert(spells(name, "Applet.cap"@) <==> name =~= APPLET_CAP@);
    assert(spells(name, "Class.cap"@) <==> name =~= CLASS_CAP@);
    assert(spells(name, "Method.cap"@) <==> name =~= METHOD_CAP@);
    assert(spells(name, "StaticField.cap"@) <==> name =~= STATIC_FIELD_CAP@);
    assert(spells(name, "Export.cap"@) <==> name =~= EXPORT_CAP@);
    assert(spells(name, "ConstantPool.cap"@) <==> name =~= CONSTANT_POOL_CAP@);
    assert(spells(name, "RefLocation.cap"@) <==> name =~= REF_LOCATION_CAP@);
    assert(spells(name, "Descriptor.cap"@) <==> name =~= DESCRIPTOR_CAP@);
    assert(HEADER_CAP@[0] == 0x48 && IMPORT_CAP@[0] == 0x49 && APPLET_CAP@[0] == 0x41);
    assert(METHOD_CAP@[0] == 0x4D && EXPORT_CAP@[0] == 0x45);
    assert(STATIC_FIELD_CAP@[0] == 0x53 && REF_LOCATION_CAP@[0] == 0x52);
}

// ---- The archive -----------------------------------------------------------

/// Numbers in an archive have the least significant octet first; where they would reach
/// past the end there is none.
pub proof fn law_numbers_are_little_endian(zip: Seq<u8>, at: int)
    ensures
        0 <= at && at + 2 <= zip.len() ==> le16(zip, at) is Some && le16(zip, at)->Some_0
            == number_le(zip.subrange(at, at + 2)),
        0 <= at && at + 4 <= zip.len() ==> le32(zip, at) is Some && le32(zip, at)->Some_0
            == number_le(zip.subrange(at, at + 4)),
        !(0 <= at && at + 2 <= zip.len()) ==> le16(zip, at) is None,
        !(0 <= at && at + 4 <= zip.len()) ==> le32(zip, at) is None,
{
    if 0 <= at && at + 2 <= zip.len() {
        lemma_number_2(zip.subrange(at, at + 2).reverse());
    }
    if 0 <= at && at + 4 <= zip.len() {
        lemma_number_4(zip.subrange(at, at + 4).reverse());
    }
}

/// Octets with which the parts of an archive begin: `PK` and two more.
pub open spec fn begins(zip: Seq<u8>, at: int, third: u8, fourth: u8) -> bool {
    &&& 0 <= at
    &&& at + 4 <= zip.len()
    &&& zip[at] == 0x50
    &&& zip[at + 1] == 0x4B
    &&& zip[at + 2] == third
    &&& zip[at + 3] == fourth
}

proof fn lemma_signature(zip: Seq<u8>, at: int, third: u8, fourth: u8)
    ensures
        begins(zip, at, third, fourth) <==> le32(zip, at) == Some(
            (0x4B50 + third * 0x1_0000 + fourth * 0x100_0000) as u32,
        ),
{
    if 0 <= at && at + 4 <= zip.len() {
        let a = zip[at] as int;
        let b = zip[at + 1] as int;
        let c = zip[at + 2] as int;
        let d = zip[at + 3] as int;
        assert(a + b * 0x100 + c * 0x1_0000 + d * 0x100_0000 == 0x4B50 + third * 0x1_0000 + fourth
            * 0x100_0000 ==> a == 0x50 && b == 0x4B && c == third && d == fourth);
    }
}

/// The end record is the last place that begins with `PK 05 06`, has 22 octets, and
/// leaves at most 65535 for a comment. Where there is none, nothing is read.
pub proof fn law_end_record(zip: Seq<u8>)
    ensures
        end_record(zip) matches Some(i) ==> {
            &&& begins(zip, i, 0x05, 0x06)
            &&& i + 22 <= zip.len() <= i + 22 + 65535
            &&& forall|j: int|
                i < j && j + 22 <= zip.len() ==> !#[trigger] begins(zip, j, 0x05, 0x06)
        },
        end_record(zip) is None ==> forall|j: int|
            j + 22 <= zip.len() <= j + 22 + 65535 ==> !#[trigger] begins(zip, j, 0x05, 0x06),
{
    if zip.len() >= 22 {
        let last = zip.len() - 22;
        let limit = if last > 65535 {
            last - 65535
        } else {
            0
        };
        lemma_end_record(zip, last, limit);
    }
}

proof fn lemma_end_record(zip: Seq<u8>, i: int, limit: int)
    requires
        0 <= limit,
    ensures
        end_record_from(zip, i, limit) matches Some(n) ==> limit <= n <= i && begins(
            zip,
            n,
            0x05,
            0x06,
        ) && forall|j: int| n < j <= i ==> !#[trigger] begins(zip, j, 0x05, 0x06),
        end_record_from(zip, i, limit) is None ==> forall|j: int|
            limit <= j <= i ==> !#[trigger] begins(zip, j, 0x05, 0x06),
    decreases i - limit + 1,
{
    if i >= limit {
        lemma_signature(zip, i, 0x05, 0x06);
        lemma_end_record(zip, i - 1, limit);
    }
}

/// An entry of the directory, field by field: it begins with `PK 01 02`; its method is at
/// 10, its packed and its full size at 20 and 24, the lengths of its name, extra field
/// and comment at 28, 30 and 32, the place of its local header at 42, and its name at 46.
/// The next entry follows all of them.
pub proof fn law_directory_entry(zip: Seq<u8>, pos: int)
    requires
        entry_at(zip, pos) is Some,
    ensures
        ({
            let e = entry_at(zip, pos)->Some_0;
            let name_len = number_le(zip.subrange(pos + 28, pos + 30)) as int;
            &&& begins(zip, pos, 0x01, 0x02)
            &&& pos + 46 + name_len <= zip.len()
            &&& e.method == number_le(zip.subrange(pos + 10, pos + 12))
            &&& e.comp_size == number_le(zip.subrange(pos + 20, pos + 24))
            &&& e.uncomp_size == number_le(zip.subrange(pos + 24, pos + 28))
            &&& e.local == number_le(zip.subrange(pos + 42, pos + 46))
            &&& e.name == zip.subrange(pos + 46, pos + 46 + name_len)
            &&& e.next == pos + 46 + name_len + number_le(zip.subrange(pos + 30, pos + 32))
                + number_le(zip.subrange(pos + 32, pos + 34))
        }),
{
    lemma_signature(zip, pos, 0x01, 0x02);
    law_numbers_are_little_endian(zip, pos + 10);
    law_numbers_are_little_endian(zip, pos + 20);
    law_numbers_are_little_endian(zip, pos + 24);
    law_numbers_are_little_endian(zip, pos + 28);
    law_numbers_are_little_endian(zip, pos + 30);
    law_numbers_are_little_endian(zip, pos + 32);
    law_numbers_are_little_endian(zip, pos + 42);
}

/// Every whole entry is read.
pub proof fn law_whole_entries_are_read(zip: Seq<u8>, pos: int)
    requires
        begins(zip, pos, 0x01, 0x02),
        pos + 46 <= zip.len(),
        pos + 46 + number_le(zip.subrange(pos + 28, pos + 30)) <= zip.len(),
        zip.len() + 2 * 65535 <= usize::MAX,
    ensures
        entry_at(zip, pos) is Some,
{
    lemma_signature(zip, pos, 0x01, 0x02);
    law_numbers_are_little_endian(zip, pos + 28);
    law_numbers_are_little_endian(zip, pos + 30);
    law_numbers_are_little_endian(zip, pos + 32);
}

/// The data of a file follow its local header, which begins with `PK 03 04` and has 30
/// octets, and its name and extra field, whose lengths are at 26 and 28.
pub proof fn law_data_follow_the_local_header(zip: Seq<u8>, local: int)
    ensures
        ({
            let start = local + 30 + number_le(zip.subrange(local + 26, local + 28)) + number_le(
                zip.subrange(local + 28, local + 30),
            );
            let whole = begins(zip, local, 0x03, 0x04) && local + 30 <= zip.len() && start
                <= zip.len();
            data_start(zip, local) == if whole {
                Some(start as int)
            } else {
                None
            }
        }),
{
    lemma_signature(zip, local, 0x03, 0x04);
    law_numbers_are_little_endian(zip, local + 26);
    law_numbers_are_little_endian(zip, local + 28);
}

/// Entry number `k` of a directory that begins at `pos`.
pub open spec fn nth_entry(zip: Seq<u8>, pos: int, k: nat) -> Option<DirEntry>
    decreases k,
{
    match entry_at(zip, pos) {
        None => None,
        Some(e) => if k == 0 {
            Some(e)
        } else {
            nth_entry(zip, e.next, (k - 1) as nat)
        },
    }
}

/// Entry number `k` is a file of component `i`.
pub open spec fn entry_names(zip: Seq<u8>, pos: int, k: nat, i: int) -> bool {
    nth_entry(zip, pos, k) matches Some(e) && component_of(e.name) == Some(i)
}

/// What is found of a component: method and sizes from the first entry that names it, and
/// the place of its data from that entry's local header. A component that no entry names
/// is not found.
pub proof fn law_first_file_of_a_name_counts(
    zip: Seq<u8>,
    pos: int,
    total: nat,
    found: Seq<Option<CompLoc>>,
    k: nat,
    i: int,
)
    requires
        directory(zip, pos, total, found) is Ok,
        found.len() == 11,
        0 <= i < 11,
        k <= total,
        forall|j: nat| j < k ==> !#[trigger] entry_names(zip, pos, j, i),
    ensures
        directory(zip, pos, total, found)->Ok_0.len() == 11,
        found[i] is Some ==> directory(zip, pos, total, found)->Ok_0[i] == found[i],
        found[i] is None && k == total ==> directory(zip, pos, total, found)->Ok_0[i] is None,
        found[i] is None && k < total && entry_names(zip, pos, k, i) ==> {
            let e = nth_entry(zip, pos, k)->Some_0;
            directory(zip, pos, total, found)->Ok_0[i] matches Some(loc) && {
                &&& loc.method == e.method
                &&& loc.comp_size == e.comp_size as usize
                &&& loc.uncomp_size == e.uncomp_size as usize
                &&& data_start(zip, e.local as int) matches Some(start) && loc.data_off
                    == start as usize
            }
        },
    decreases total,
{
    lemma_component_range(zip, pos);
    if total > 0 {
        let e = entry_at(zip, pos)->Some_0;
        let rest = (total - 1) as nat;
        let then = match component_of(e.name) {
            None => found,
            Some(c) => if found[c] is Some {
                found
            } else {
                found.update(
                    c,
                    Some(
                        CompLoc {
                            method: e.method,
                            data_off: data_start(zip, e.local as int)->Some_0 as usize,
                            comp_size: e.comp_size as usize,
                            uncomp_size: e.uncomp_size as usize,
                        },
                    ),
                )
            },
        };
        assert(directory(zip, pos, total, found) == directory(zip, e.next, rest, then));
        if k > 0 {
            assert(!entry_names(zip, pos, 0, i));
            assert forall|j: nat| j < k - 1 implies !#[trigger] entry_names(
                zip,
                e.next,
                j,
                i,
            ) by {
                assert(!entry_names(zip, pos, j + 1, i));
            }
            law_first_file_of_a_name_counts(zip, e.next, rest, then, (k - 1) as nat, i);
        } else {
            law_first_file_of_a_name_counts(zip, e.next, rest, then, 0, i);
        }
    }
}

proof fn lemma_component_range(zip: Seq<u8>, pos: int)
    ensures
        entry_at(zip, pos) matches Some(e) ==> (component_of(e.name) matches Some(c) ==> 0 <= c
            < 11),
{
    reveal_with_fuel(component_from, 13);
}

/// The directory is where the end record says, at its octets 16 to 19, and has as many
/// entries as its octets 10 and 11 say.
pub proof fn law_directory_is_where_the_end_says(zip: Seq<u8>)
    ensures
        end_record(zip) is None ==> components_in(zip) is Err,
        end_record(zip) matches Some(end) ==> components_in(zip) == directory(
            zip,
            number_le(zip.subrange(end + 16, end + 20)) as int,
            number_le(zip.subrange(end + 10, end + 12)),
            Seq::new(11, |i: int| None),
        ),
{
    law_end_record(zip);
    if let Some(end) = end_record(zip) {
        law_numbers_are_little_endian(zip, end + 10);
        law_numbers_are_little_endian(zip, end + 16);
        assert(no_components() =~= Seq::new(11, |i: int| None));
    }
}

// ---- The load file ---------------------------------------------------------

/// What one component adds to the load file.
pub open spec fn piece_of(zip: Seq<u8>, locs: Seq<Option<CompLoc>>, k: int) -> Seq<u8> {
    match locs[k] {
        None => Seq::empty(),
        Some(loc) => flow_bytes(content(zip, loc)),
    }
}

/// The load file is its header and then the components in their order, the eleven of
/// them.
pub proof fn law_load_file_in_order(zip: Seq<u8>, locs: Seq<Option<CompLoc>>)
    requires
        locs.len() == 11,
    ensures
        block_of(zip, locs) == header_of_block(locs) + piece_of(zip, locs, 0) + piece_of(
            zip,
            locs,
            1,
        ) + piece_of(zip, locs, 2) + piece_of(zip, locs, 3) + piece_of(zip, locs, 4) + piece_of(
            zip,
            locs,
            5,
        ) + piece_of(zip, locs, 6) + piece_of(zip, locs, 7) + piece_of(zip, locs, 8) + piece_of(
            zip,
            locs,
            9,
        ) + piece_of(zip, locs, 10),
{
    let a0 = header_of_block(locs);
    let a1 = a0 + piece_of(zip, locs, 0);
    let a2 = a1 + piece_of(zip, locs, 1);
    let a3 = a2 + piece_of(zip, locs, 2);
    let a4 = a3 + piece_of(zip, locs, 3);
    let a5 = a4 + piece_of(zip, locs, 4);
    let a6 = a5 + piece_of(zip, locs, 5);
    let a7 = a6 + piece_of(zip, locs, 6);
    let a8 = a7 + piece_of(zip, locs, 7);
    let a9 = a8 + piece_of(zip, locs, 8);
    let a10 = a9 + piece_of(zip, locs, 9);
    let a11 = a10 + piece_of(zip, locs, 10);
    lemma_from(zip, locs, a0, 0);
    lemma_from(zip, locs, a1, 1);
    lemma_from(zip, locs, a2, 2);
    lemma_from(zip, locs, a3, 3);
    lemma_from(zip, locs, a4, 4);
    lemma_from(zip, locs, a5, 5);
    lemma_from(zip, locs, a6, 6);
    lemma_from(zip, locs, a7, 7);
    lemma_from(zip, locs, a8, 8);
    lemma_from(zip, locs, a9, 9);
    lemma_from(zip, locs, a10, 10);
    assert(components_from(zip, locs, 11) =~= Seq::empty());
    assert(a11 + Seq::<u8>::empty() =~= a11);
}

/// One component behind what stands in front of it.
proof fn lemma_from(zip: Seq<u8>, locs: Seq<Option<CompLoc>>, front: Seq<u8>, k: int)
    requires
        0 <= k < 11,
    ensures
        front + components_from(zip, locs, k) == (front + piece_of(zip, locs, k))
            + components_from(zip, locs, k + 1),
{
    assert(front + components_from(zip, locs, k) =~= (front + piece_of(zip, locs, k))
        + components_from(zip, locs, k + 1));
}

/// The length in the header of the load file is that of all components together.
pub proof fn law_load_file_size(locs: Seq<Option<CompLoc>>)
    requires
        locs.len() == 11,
    ensures
        size_from(locs, 0) == full_size(locs, 0) + full_size(locs, 1) + full_size(locs, 2)
            + full_size(locs, 3) + full_size(locs, 4) + full_size(locs, 5) + full_size(locs, 6)
            + full_size(locs, 7) + full_size(locs, 8) + full_size(locs, 9) + full_size(locs, 10),
        size_from(locs, 0) <= usize::MAX ==> header_of_block(locs) == block_header(
            size_from(locs, 0),
        ),
{
    reveal_with_fuel(size_from, 12);
}

/// The unpacked length of one component, as the archive gives it.
pub open spec fn full_size(locs: Seq<Option<CompLoc>>, k: int) -> nat {
    match locs[k] {
        None => 0,
        Some(loc) => loc.uncomp_size as nat,
    }
}

/// The header of a load file: the tag `C4`, and the length in the shortest form: in one
/// octet below 128, and otherwise in as many as are counted in the octet before them.
pub proof fn law_load_file_header(len: nat)
    requires
        len <= 0xFF_FFFF,
    ensures
        ({
            let h = block_header(len);
            &&& h[0] == 0xC4
            &&& len < 128 ==> h.len() == 2 && h[1] == len
            &&& len >= 128 ==> {
                &&& h[1] == 0x80 + (h.len() - 2)
                &&& number(h.skip(2)) == len
                &&& h.len() == (if len < 0x100 {
                    3int
                } else if len < 0x1_0000 {
                    4
                } else {
                    5
                })
            }
        }),
{
    let h = block_header(len);
    if len >= 128 {
        if len < 0x100 {
            lemma_number_1(h.skip(2));
        } else if len < 0x1_0000 {
            lemma_number_2(h.skip(2));
        } else {
            lemma_number_3(h.skip(2));
            assert(len / 0x1_0000 % 0x100 == len / 0x1_0000);
            assert(len / 0x1_0000 * 0x1_0000 + len / 0x100 % 0x100 * 0x100 + len % 0x100 == len);
        }
    }
}

/// What a component holds: under any method but DEFLATE (8) the octets that lie in the
/// archive, and under DEFLATE what those unpack to.
pub proof fn law_component_content(zip: Seq<u8>, loc: CompLoc)
    requires
        loc.data_off + loc.comp_size <= zip.len(),
        loc.data_off + loc.uncomp_size <= zip.len(),
    ensures
        loc.method != 8 ==> content(zip, loc) == Ok::<Seq<u8>, Seq<u8>>(
            zip.subrange(loc.data_off as int, loc.data_off + loc.uncomp_size),
        ),
        loc.method == 8 ==> content(zip, loc) == unpacked(
            Seq::new(32768, |i: int| 0u8),
            zip.subrange(loc.data_off as int, loc.data_off + loc.comp_size),
        ),
{
    assert(blank_window() =~= Seq::new(32768, |i: int| 0u8));
}

// ---- What the components say -----------------------------------------------

/// A header that was written is read: a tag, a size of two octets, `DECAFFED`, the minor
/// and the major version, flags, the two octets of the package version, the length of the
/// identifier and the identifier.
pub proof fn law_header_is_read(b: Seq<u8>, aid: Seq<u8>, rest: Seq<u8>)
    requires
        b.len() == 13 + aid.len() + rest.len(),
        number(b.subrange(3, 7)) == 0xDECA_FFED,
        b[12] == aid.len(),
        b.subrange(13, 13 + aid.len() as int) == aid,
        5 <= aid.len() <= 16,
    ensures
        header_of(b) matches Some(h) && {
            &&& h.package_aid == aid
            &&& h.version == (b[8], b[7], 0u8)
        },
{
    lemma_number_4(b.subrange(3, 7));
    let x = b.subrange(3, 7);
    assert(x[0] == 0xDE && x[1] == 0xCA && x[2] == 0xFF && x[3] == 0xED) by {
        let a0 = x[0] as int;
        let a1 = x[1] as int;
        let a2 = x[2] as int;
        let a3 = x[3] as int;
        assert(a0 * 0x100_0000 + a1 * 0x1_0000 + a2 * 0x100 + a3 == 0xDECA_FFED);
    }
}

/// A header without `DECAFFED` is none.
pub proof fn law_header_needs_the_magic(b: Seq<u8>)
    requires
        b.len() >= 7,
        number(b.subrange(3, 7)) != 0xDECA_FFED,
    ensures
        header_of(b) is None,
{
    lemma_number_4(b.subrange(3, 7));
}

/// Imports as they are written: two octets of version, a length, and the identifier.
pub open spec fn import_octets(versions: Seq<(u8, u8)>, aids: Seq<Seq<u8>>) -> Seq<u8>
    decreases aids.len(),
{
    if aids.len() == 0 {
        Seq::empty()
    } else {
        seq![versions[0].0, versions[0].1, aids[0].len() as u8] + aids[0] + import_octets(
            versions.skip(1),
            aids.skip(1),
        )
    }
}

/// Identifiers of a legal length.
pub open spec fn all_legal(aids: Seq<Seq<u8>>) -> bool {
    forall|i: int| 0 <= i < aids.len() ==> 5 <= (#[trigger] aids[i]).len() <= 16
}

/// Imports that were written are read, in their order.
pub proof fn law_imports_are_read(b: Seq<u8>, versions: Seq<(u8, u8)>, aids: Seq<Seq<u8>>)
    requires
        all_legal(aids),
        aids.len() <= crate::limits::MAX_CAP_IMPORTS,
        b.len() >= 4,
        b[3] == aids.len(),
        b.skip(4) == import_octets(versions, aids),
    ensures
        imports_of(b) == Some(aids),
{
    lemma_imports(b, 4, versions, aids);
}

proof fn lemma_imports(b: Seq<u8>, p: int, versions: Seq<(u8, u8)>, aids: Seq<Seq<u8>>)
    requires
        0 <= p <= b.len(),
        all_legal(aids),
        b.skip(p) == import_octets(versions, aids),
    ensures
        import_list(b, p, aids.len()) == Some(aids),
    decreases aids.len(),
{
    if aids.len() > 0 {
        let rest = import_octets(versions.skip(1), aids.skip(1));
        let written = seq![versions[0].0, versions[0].1, aids[0].len() as u8] + aids[0] + rest;
        assert(b.skip(p) == written);
        assert(b.skip(p).len() == written.len());
        assert(b[p + 2] == b.skip(p)[2] && written[2] == aids[0].len());
        let end = p + 3 + b[p + 2];
        assert(b.subrange(p + 3, end) =~= aids[0]) by {
            assert forall|k: int| 0 <= k < aids[0].len() implies b.subrange(p + 3, end)[k]
                == aids[0][k] by {
                assert(b.skip(p)[3 + k] == written[3 + k]);
            }
        }
        assert(b.skip(end) =~= rest) by {
            assert forall|k: int| 0 <= k < rest.len() implies b.skip(end)[k] == rest[k] by {
                assert(b.skip(p)[3 + aids[0].len() + k] == written[3 + aids[0].len() + k]);
            }
        }
        assert(all_legal(aids.skip(1))) by {
            assert forall|i: int| 0 <= i < aids.skip(1).len() implies 5 <= (
            #[trigger] aids.skip(1)[i]).len() <= 16 by {
                assert(5 <= aids[i + 1].len() <= 16);
            }
        }
        lemma_imports(b, end, versions.skip(1), aids.skip(1));
        assert(seq![aids[0]] + aids.skip(1) =~= aids);
    } else {
        assert(aids =~= Seq::empty());
    }
}

/// Applets as they are written: a length, the identifier, and the offset of the install
/// method in two octets.
pub open spec fn applet_octets(applets: Seq<AppletRecord>) -> Seq<u8>
    decreases applets.len(),
{
    if applets.len() == 0 {
        Seq::empty()
    } else {
        seq![applets[0].class_aid.len() as u8] + applets[0].class_aid + seq![
            (applets[0].install_method_offset / 256) as u8,
            (applets[0].install_method_offset % 256) as u8,
        ] + applet_octets(applets.skip(1))
    }
}

/// Applets with identifiers of a legal length.
pub open spec fn all_applets_legal(applets: Seq<AppletRecord>) -> bool {
    forall|i: int| 0 <= i < applets.len() ==> 5 <= (#[trigger] applets[i]).class_aid.len() <= 16
}

/// Applets that were written are read, in their order.
pub proof fn law_applets_are_read(b: Seq<u8>, applets: Seq<AppletRecord>)
    requires
        all_applets_legal(applets),
        applets.len() <= crate::limits::MAX_CAP_APPLETS,
        b.len() >= 4,
        b[3] == applets.len(),
        b.skip(4) == applet_octets(applets),
    ensures
        applets_of(b) == Some(applets),
{
    lemma_applets(b, 4, applets);
}

proof fn lemma_applets(b: Seq<u8>, p: int, applets: Seq<AppletRecord>)
    requires
        0 <= p <= b.len(),
        all_applets_legal(applets),
        b.skip(p) == applet_octets(applets),
    ensures
        applet_list(b, p, applets.len()) == Some(applets),
    decreases applets.len(),
{
    if applets.len() > 0 {
        let a = applets[0];
        let rest = applet_octets(applets.skip(1));
        let n = a.class_aid.len() as int;
        let written = seq![n as u8] + a.class_aid + seq![
            (a.install_method_offset / 256) as u8,
            (a.install_method_offset % 256) as u8,
        ] + rest;
        assert(b.skip(p) == written);
        assert(b.skip(p).len() == written.len());
        assert(b[p] == b.skip(p)[0] && written[0] == n);
        let end = p + 1 + b[p];
        assert(b.subrange(p + 1, end) =~= a.class_aid) by {
            assert forall|k: int| 0 <= k < n implies b.subrange(p + 1, end)[k]
                == a.class_aid[k] by {
                assert(b.skip(p)[1 + k] == written[1 + k]);
            }
        }
        assert(b[end] == b.skip(p)[1 + n] && b[end + 1] == b.skip(p)[2 + n]);
        assert(written[1 + n] == a.install_method_offset / 256 && written[2 + n]
            == a.install_method_offset % 256);
        assert(b.skip(end + 2) =~= rest) by {
            assert forall|k: int| 0 <= k < rest.len() implies b.skip(end + 2)[k] == rest[k] by {
                assert(b.skip(p)[3 + n + k] == written[3 + n + k]);
            }
        }
        assert(all_applets_legal(applets.skip(1))) by {
            assert forall|i: int| 0 <= i < applets.skip(1).len() implies 5 <= (
            #[trigger] applets.skip(1)[i]).class_aid.len() <= 16 by {
                assert(5 <= applets[i + 1].class_aid.len() <= 16);
            }
        }
        lemma_applets(b, end + 2, applets.skip(1));
        assert(seq![a] + applets.skip(1) =~= applets);
    } else {
        assert(applets =~= Seq::empty());
    }
}

/// A CAP file says what its header, its imports and its applets say, and these are the
/// components number 0, 2 and 3. A file without a header cannot be read, and one without
/// imports or applets has none.
pub proof fn law_cap_file_says_what_its_components_say(zip: Seq<u8>)
    requires
        cap_of(zip) is Ok,
    ensures
        ({
            let cap = cap_of(zip)->Ok_0;
            &&& components_in(zip) is Ok
            &&& cap.locs == components_in(zip)->Ok_0
            &&& cap.locs[0] matches Some(loc) && component_bytes(zip, loc) matches Ok(b)
                && header_of(b) matches Some(h) && h.package_aid == cap.package_aid && h.version
                == cap.version
            &&& cap.locs[2] is None ==> cap.imports.len() == 0
            &&& cap.locs[2] matches Some(loc) ==> component_bytes(zip, loc) is Ok && imports_of(
                component_bytes(zip, loc)->Ok_0,
            ) == Some(cap.imports)
            &&& cap.locs[3] is None ==> cap.applets.len() == 0
            &&& cap.locs[3] matches Some(loc) ==> component_bytes(zip, loc) is Ok && applets_of(
                component_bytes(zip, loc)->Ok_0,
            ) == Some(cap.applets)
        }),
{
}

/// What is read of a stored component of a whole archive are its octets.
pub proof fn law_stored_components_are_read(zip: Seq<u8>, loc: CompLoc)
    requires
        loc.data_off + loc.comp_size <= zip.len(),
        loc.method == 0,
        loc.comp_size <= 32768,
    ensures
        component_bytes(zip, loc) == Ok::<Seq<u8>, crate::cap::CapError>(
            zip.subrange(loc.data_off as int, loc.data_off + loc.comp_size),
        ),
{
}

} // verus!
