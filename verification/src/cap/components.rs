//! The components of a CAP file that describe it (Java Card VM specification,
//! chapter 6).
use vstd::prelude::*;

use crate::aid::{aid_shaped, Aid};
use crate::cap::CapError;
use crate::limits::{MAX_CAP_APPLETS, MAX_CAP_IMPORTS};
use crate::model::aid_views;

verus! {

/// What a header starts with.
pub const HEADER_MAGIC: u32 = 0xDECA_FFED;

/// What a CAP file says of itself.
pub struct CapComponents {
    /// Version of the CAP format: major, minor and zero.
    pub jc_platform_version: (u8, u8, u8),
    /// The packages that it needs, at most [`MAX_CAP_IMPORTS`].
    pub imports: Vec<Aid>,
    /// The applets that it holds, at most [`MAX_CAP_APPLETS`].
    pub applets: Vec<AppletEntry>,
}

/// An applet class.
pub struct AppletEntry {
    pub class_aid: Aid,
    pub install_method_offset: u16,
}

/// The content of an [`AppletEntry`].
pub struct AppletRecord {
    pub class_aid: Seq<u8>,
    pub install_method_offset: u16,
}

impl View for AppletEntry {
    type V = AppletRecord;

    open spec fn view(&self) -> AppletRecord {
        AppletRecord {
            class_aid: self.class_aid@,
            install_method_offset: self.install_method_offset,
        }
    }
}

/// The contents of a list of applets.
pub open spec fn applet_views(applets: Seq<AppletEntry>) -> Seq<AppletRecord> {
    applets.map_values(|a: AppletEntry| a@)
}

/// The package that a header names, with the version of the format.
pub struct HeaderRecord {
    pub package_aid: Seq<u8>,
    pub version: (u8, u8, u8),
}

/// What `Header.cap` says: tag and size, the magic number, the version of the
/// format, flags, the version of the package and its identifier.
pub open spec fn header_of(b: Seq<u8>) -> Option<HeaderRecord> {
    if b.len() >= 13 && b[3] == 0xDE && b[4] == 0xCA && b[5] == 0xFF && b[6] == 0xED && b.len()
        >= 13 + b[12] && aid_shaped(b.subrange(13, 13 + b[12])) {
        Some(
            HeaderRecord { package_aid: b.subrange(13, 13 + b[12]), version: (b[8], b[7], 0u8) },
        )
    } else {
        None
    }
}

/// A list in front of what is still to come.
pub open spec fn listed<T>(first: Seq<T>, rest: Option<Seq<T>>) -> Option<Seq<T>> {
    match rest {
        Some(r) => Some(first + r),
        None => None,
    }
}

/// `count` imports from `p` on: a version, a length and an identifier each.
pub open spec fn import_list(b: Seq<u8>, p: int, count: nat) -> Option<Seq<Seq<u8>>>
    decreases count,
{
    if count == 0 {
        Some(Seq::empty())
    } else if p + 3 > b.len() || p + 3 + b[p + 2] > b.len() || !aid_shaped(
        b.subrange(p + 3, p + 3 + b[p + 2]),
    ) {
        None
    } else {
        let end = p + 3 + b[p + 2];
        listed(seq![b.subrange(p + 3, end)], import_list(b, end, (count - 1) as nat))
    }
}

/// What `Import.cap` says: tag and size, a count and the imports.
pub open spec fn imports_of(b: Seq<u8>) -> Option<Seq<Seq<u8>>> {
    if b.len() < 4 || b[3] > MAX_CAP_IMPORTS {
        None
    } else {
        import_list(b, 4, b[3] as nat)
    }
}

/// `count` applets from `p` on: a length, an identifier and the offset of the
/// install method each.
pub open spec fn applet_list(b: Seq<u8>, p: int, count: nat) -> Option<Seq<AppletRecord>>
    decreases count,
{
    if count == 0 {
        Some(Seq::empty())
    } else if p + 1 > b.len() || p + 1 + b[p] + 2 > b.len() || !aid_shaped(
        b.subrange(p + 1, p + 1 + b[p]),
    ) {
        None
    } else {
        let end = p + 1 + b[p];
        listed(
            seq![
                AppletRecord {
                    class_aid: b.subrange(p + 1, end),
                    install_method_offset: (b[end] * 256 + b[end + 1]) as u16,
                },
            ],
            applet_list(b, end + 2, (count - 1) as nat),
        )
    }
}

/// What `Applet.cap` says: tag and size, a count and the applets.
pub open spec fn applets_of(b: Seq<u8>) -> Option<Seq<AppletRecord>> {
    if b.len() < 4 || b[3] > MAX_CAP_APPLETS {
        None
    } else {
        applet_list(b, 4, b[3] as nat)
    }
}

/// Reads `Header.cap`.
pub fn parse_header(b: &[u8]) -> (r: Result<(Aid, (u8, u8, u8)), CapError>)
    ensures
        match header_of(b@) {
            Some(h) => r matches Ok((aid, version)) && aid@ == h.package_aid && version
                == h.version,
            None => r matches Err(e) && e == CapError::Malformed,
        },
{
    if b.len() < 13 {
        return Err(CapError::Malformed);
    }
    let magic: u32 = b[3] as u32 * 0x100_0000 + b[4] as u32 * 0x1_0000 + b[5] as u32 * 0x100
        + b[6] as u32;
    if magic != HEADER_MAGIC {
        return Err(CapError::Malformed);
    }
    let len: usize = b[12] as usize;
    if len > b.len() - 13 {
        return Err(CapError::Malformed);
    }
    match Aid::new(&b[13..13 + len]) {
        Ok(aid) => Ok((aid, (b[8], b[7], 0))),
        Err(_) => Err(CapError::Malformed),
    }
}

/// Reads `Import.cap`.
pub fn parse_imports(b: &[u8]) -> (r: Result<Vec<Aid>, CapError>)
    ensures
        match imports_of(b@) {
            Some(list) => r matches Ok(v) && aid_views(v@) == list,
            None => r matches Err(e) && e == CapError::Malformed,
        },
{
    if b.len() < 4 {
        return Err(CapError::Malformed);
    }
    let count: usize = b[3] as usize;
    if count > MAX_CAP_IMPORTS {
        return Err(CapError::Malformed);
    }
    let mut imports: Vec<Aid> = Vec::new();
    let mut p: usize = 4;
    let mut i: usize = 0;
    proof {
        assert(aid_views(imports@) =~= Seq::empty());
        match import_list(b@, 4, count as nat) {
            Some(rest) => assert(Seq::<Seq<u8>>::empty() + rest =~= rest),
            None => {},
        }
    }
    while i < count
        invariant
            i <= count,
            p <= b.len(),
            imports_of(b@) == listed(
                aid_views(imports@),
                import_list(b@, p as int, (count - i) as nat),
            ),
        decreases count - i,
    {
        if b.len() - p < 3 {
            return Err(CapError::Malformed);
        }
        let len: usize = b[p + 2] as usize;
        let start: usize = p + 3;
        if len > b.len() - start {
            return Err(CapError::Malformed);
        }
        let end: usize = start + len;
        let aid: Aid = match Aid::new(&b[start..end]) {
            Ok(a) => a,
            Err(_) => return Err(CapError::Malformed),
        };
        let ghost before = aid_views(imports@);
        imports.push(aid);
        proof {
            assert(aid_views(imports@) =~= before.push(aid@));
            match import_list(b@, end as int, (count - i - 1) as nat) {
                Some(rest) => assert(before + (seq![aid@] + rest) =~= aid_views(imports@) + rest),
                None => {},
            }
        }
        p = end;
        i = i + 1;
    }
    assert(aid_views(imports@) + Seq::<Seq<u8>>::empty() =~= aid_views(imports@));
    Ok(imports)
}

/// Reads `Applet.cap`.
pub fn parse_applets(b: &[u8]) -> (r: Result<Vec<AppletEntry>, CapError>)
    ensures
        match applets_of(b@) {
            Some(list) => r matches Ok(v) && applet_views(v@) == list,
            None => r matches Err(e) && e == CapError::Malformed,
        },
{
    if b.len() < 4 {
        return Err(CapError::Malformed);
    }
    let count: usize = b[3] as usize;
    if count > MAX_CAP_APPLETS {
        return Err(CapError::Malformed);
    }
    let mut applets: Vec<AppletEntry> = Vec::new();
    let mut p: usize = 4;
    let mut i: usize = 0;
    proof {
        assert(applet_views(applets@) =~= Seq::empty());
        match applet_list(b@, 4, count as nat) {
            Some(rest) => assert(Seq::<AppletRecord>::empty() + rest =~= rest),
            None => {},
        }
    }
    while i < count
        invariant
            i <= count,
            p <= b.len(),
            applets_of(b@) == listed(
                applet_views(applets@),
                applet_list(b@, p as int, (count - i) as nat),
            ),
        decreases count - i,
    {
        if b.len() - p < 1 {
            return Err(CapError::Malformed);
        }
        let len: usize = b[p] as usize;
        let start: usize = p + 1;
        if b.len() - start < 2 || len > b.len() - start - 2 {
            return Err(CapError::Malformed);
        }
        let end: usize = start + len;
        let aid: Aid = match Aid::new(&b[start..end]) {
            Ok(a) => a,
            Err(_) => return Err(CapError::Malformed),
        };
        let entry: AppletEntry = AppletEntry {
            class_aid: aid,
            install_method_offset: b[end] as u16 * 256 + b[end + 1] as u16,
        };
        let ghost record = entry@;
        let ghost before = applet_views(applets@);
        applets.push(entry);
        proof {
            assert(applet_views(applets@) =~= before.push(record));
            match applet_list(b@, end + 2, (count - i - 1) as nat) {
                Some(rest) => assert(before + (seq![record] + rest) =~= applet_views(applets@)
                    + rest),
                None => {},
            }
        }
        p = end + 2;
        i = i + 1;
    }
    assert(applet_views(applets@) + Seq::<AppletRecord>::empty() =~= applet_views(applets@));
    Ok(applets)
}

} // verus!
