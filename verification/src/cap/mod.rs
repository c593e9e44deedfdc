//! CAP files.
//!
//! A CAP file is a ZIP archive of components. What is loaded onto a card is the
//! Load File Data Block: a tag, a length, and the components in a fixed order,
//! unpacked. It is never held as a whole.
use vstd::prelude::*;

pub mod components;
pub mod inflate;
pub mod lfdb;
pub mod zip;

pub use components::{AppletEntry, CapComponents};
pub use inflate::InflateCtx;
pub use lfdb::LoadFileDataBlock;

use crate::aid::Aid;
use crate::limits::INFLATE_WINDOW;
use crate::model::aid_views;
use components::{
    applet_views, applets_of, header_of, imports_of, parse_applets, parse_header, parse_imports,
    AppletRecord,
};
use inflate::unpacked_within;
use lfdb::beginning;
use zip::{components_in, walk_zip, CompLoc, LFDB_COMPONENTS, METHOD_DEFLATE, METHOD_STORED};

verus! {

/// Failure to read a CAP file.
#[derive(Debug, Clone, Copy, PartialEq, Eq)]
#[non_exhaustive]
pub enum CapError {
    /// The input is no ZIP archive.
    NotAZip,
    /// A component that every CAP file has is missing.
    MissingComponent(&'static str),
    /// The archive or a component is structurally invalid.
    Malformed,
    /// A compressed component cannot be inflated.
    Inflate,
}

const IDX_HEADER: usize = 0;

const IDX_IMPORT: usize = 2;

const IDX_APPLET: usize = 3;

/// The packed bytes of a component.
pub open spec fn packed(zip: Seq<u8>, loc: CompLoc) -> Seq<u8> {
    zip.subrange(loc.data_off as int, loc.data_off + loc.comp_size)
}

/// The content of a component that describes the file. It has to fit the window.
pub open spec fn component_bytes(zip: Seq<u8>, loc: CompLoc) -> Result<Seq<u8>, CapError> {
    if loc.data_off + loc.comp_size > zip.len() {
        Err(CapError::Malformed)
    } else if loc.method == METHOD_STORED {
        if loc.comp_size > 32768 {
            Err(CapError::Malformed)
        } else {
            Ok(packed(zip, loc))
        }
    } else if loc.method == METHOD_DEFLATE {
        match unpacked_within(packed(zip, loc), 32768) {
            Some(x) => Ok(x),
            None => Err(CapError::Inflate),
        }
    } else {
        Err(CapError::Malformed)
    }
}

/// What a CAP file says of itself, and where its components are.
pub struct CapModel {
    pub package_aid: Seq<u8>,
    pub version: (u8, u8, u8),
    pub imports: Seq<Seq<u8>>,
    pub applets: Seq<AppletRecord>,
    pub locs: Seq<Option<CompLoc>>,
}

/// The list in an optional component.
pub open spec fn optional_imports(zip: Seq<u8>, loc: Option<CompLoc>) -> Result<
    Seq<Seq<u8>>,
    CapError,
> {
    match loc {
        None => Ok(Seq::empty()),
        Some(l) => match component_bytes(zip, l) {
            Err(e) => Err(e),
            Ok(b) => match imports_of(b) {
                Some(list) => Ok(list),
                None => Err(CapError::Malformed),
            },
        },
    }
}

/// The list in an optional component.
pub open spec fn optional_applets(zip: Seq<u8>, loc: Option<CompLoc>) -> Result<
    Seq<AppletRecord>,
    CapError,
> {
    match loc {
        None => Ok(Seq::empty()),
        Some(l) => match component_bytes(zip, l) {
            Err(e) => Err(e),
            Ok(b) => match applets_of(b) {
                Some(list) => Ok(list),
                None => Err(CapError::Malformed),
            },
        },
    }
}

/// What reading a CAP file gives.
pub open spec fn cap_of(zip: Seq<u8>) -> Result<CapModel, CapError> {
    match components_in(zip) {
        Err(e) => Err(e),
        Ok(locs) => match locs[0] {
            None => Err(CapError::MissingComponent("Header.cap")),
            Some(header) => match component_bytes(zip, header) {
                Err(e) => Err(e),
                Ok(b) => match header_of(b) {
                    None => Err(CapError::Malformed),
                    Some(h) => match optional_imports(zip, locs[2]) {
                        Err(e) => Err(e),
                        Ok(imports) => match optional_applets(zip, locs[3]) {
                            Err(e) => Err(e),
                            Ok(applets) => Ok(
                                CapModel {
                                    package_aid: h.package_aid,
                                    version: h.version,
                                    imports,
                                    applets,
                                    locs,
                                },
                            ),
                        },
                    },
                },
            },
        },
    }
}

/// The archive of a CAP file, and where its components are.
pub struct CapSource<'a> {
    zip: &'a [u8],
    /// In the order of the load file.
    locs: [Option<CompLoc>; LFDB_COMPONENTS],
}

impl<'a> CapSource<'a> {
    /// The archive.
    pub closed spec fn archive(self) -> Seq<u8> {
        self.zip@
    }

    /// Where the components are.
    pub closed spec fn locations(self) -> Seq<Option<CompLoc>> {
        self.locs@
    }
}

/// A CAP file that was read. It borrows the archive.
pub struct CapFile<'a> {
    pub package_aid: Aid,
    pub components: CapComponents,
    pub source: CapSource<'a>,
}

impl<'a> CapFile<'a> {
    /// What the file says of itself.
    pub open spec fn model(self) -> CapModel {
        CapModel {
            package_aid: self.package_aid@,
            version: self.components.jc_platform_version,
            imports: aid_views(self.components.imports@),
            applets: applet_views(self.components.applets@),
            locs: self.source.locations(),
        }
    }

    /// The Load File Data Block, from its beginning.
    pub fn lfdb(&self) -> (r: LoadFileDataBlock<'a>)
        ensures
            r.archive() == self.source.archive(),
            r.locations() == self.source.locations(),
            r.place() == beginning(),
            forall|infl: InflateCtx| #[trigger] r.in_step(infl),
    {
        LoadFileDataBlock::start(self.source.zip, self.source.locs)
    }
}

/// Unpacks a component into the window, and returns its length.
fn read_component(zip: &[u8], loc: &CompLoc, infl: &mut InflateCtx) -> (r: Result<usize, CapError>)
    ensures
        match component_bytes(zip@, *loc) {
            Ok(x) => r matches Ok(n) && n == x.len() && n <= 32768
                && final(infl).window_of().take(n as int) == x,
            Err(e) => r matches Err(err) && err == e,
        },
{
    if loc.data_off > zip.len() || loc.comp_size > zip.len() - loc.data_off {
        return Err(CapError::Malformed);
    }
    let input: &[u8] = &zip[loc.data_off..loc.data_off + loc.comp_size];
    assert(input@ =~= packed(zip@, *loc));
    match loc.method {
        METHOD_STORED => {
            if input.len() > INFLATE_WINDOW {
                return Err(CapError::Malformed);
            }
            infl.store(input);
            Ok(input.len())
        },
        METHOD_DEFLATE => match infl.unpack(input) {
            Some(n) => Ok(n),
            None => Err(CapError::Inflate),
        },
        _ => Err(CapError::Malformed),
    }
}

/// Reads a CAP file. `infl` is lent for the components that describe it and is
/// ready for another stream afterwards, whether the file can be read or not.
pub fn parse<'a>(cap_zip: &'a [u8], infl: &mut InflateCtx) -> (r: Result<CapFile<'a>, CapError>)
    ensures
        match cap_of(cap_zip@) {
            Ok(m) => r matches Ok(cap) && cap.model() == m && cap.source.archive() == cap_zip@,
            Err(e) => r matches Err(err) && err == e,
        },
        final(infl).ready(),
{
    let r: Result<CapFile<'a>, CapError> = read_cap(cap_zip, infl);
    infl.reset();
    r
}

/// Reads a CAP file by way of the window of `infl`.
fn read_cap<'a>(cap_zip: &'a [u8], infl: &mut InflateCtx) -> (r: Result<CapFile<'a>, CapError>)
    ensures
        match cap_of(cap_zip@) {
            Ok(m) => r matches Ok(cap) && cap.model() == m && cap.source.archive() == cap_zip@,
            Err(e) => r matches Err(err) && err == e,
        },
{
    let locs: [Option<CompLoc>; LFDB_COMPONENTS] = walk_zip(cap_zip)?;
    let header_loc: CompLoc = match locs[IDX_HEADER] {
        Some(l) => l,
        None => return Err(CapError::MissingComponent("Header.cap")),
    };
    let n: usize = read_component(cap_zip, &header_loc, infl)?;
    let (package_aid, jc_platform_version) = parse_header(infl.front(n))?;
    let mut imports: Vec<Aid> = Vec::new();
    assert(aid_views(imports@) =~= Seq::empty());
    if let Some(loc) = locs[IDX_IMPORT] {
        let n: usize = read_component(cap_zip, &loc, infl)?;
        imports = parse_imports(infl.front(n))?;
    }
    let mut applets: Vec<AppletEntry> = Vec::new();
    assert(applet_views(applets@) =~= Seq::empty());
    if let Some(loc) = locs[IDX_APPLET] {
        let n: usize = read_component(cap_zip, &loc, infl)?;
        applets = parse_applets(infl.front(n))?;
    }
    Ok(
        CapFile {
            package_aid,
            components: CapComponents { jc_platform_version, imports, applets },
            source: CapSource { zip: cap_zip, locs },
        },
    )
}

} // verus!
