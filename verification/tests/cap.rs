//! CAP files.
use scll::cap::components::{parse_applets, parse_header, parse_imports};
use scll::cap::zip::component_index;
use scll::cap::{parse, CapError, CapFile, InflateCtx};
use scll::limits::LOAD_BLOCK_DATA;

const PKG_AID: &[u8] = &[0xA0, 0x00, 0x00, 0x00, 0x62, 0x03, 0x01];
const IMPORT_AID: &[u8] = &[0xA0, 0x00, 0x00, 0x00, 0x62, 0x01, 0x01];
const APPLET_AID: &[u8] = &[0xA0, 0x00, 0x00, 0x00, 0x62, 0x03, 0x01, 0x0A];

const HEADER: &str = "010011decaffed010200000107a0000000620301";
const IMPORT: &str = "04000b01010007a0000000620101";
const APPLET: &str = "03000c0108a00000006203010a001f";

/// The same three, compressed.
const HEADER_PACKED: &str = "636410bc77eaff5b4626060646f6050c0c0c49cc8c00";
const IMPORT_PACKED: &str = "6361e0666464605fc0c0c090c4c80800";
const APPLET_PACKED: &str = "6366e061e458c0c0c090c4ccc8c5200f00";

fn hx(s: &str) -> Vec<u8> {
    (0..s.len())
        .step_by(2)
        .map(|i| u8::from_str_radix(&s[i..i + 2], 16).unwrap())
        .collect()
}

/// 52000 bytes of `METHOD-BYTES-`, over and over, compressed.
fn method_packed() -> Vec<u8> {
    let mut v = hx("edc7a10d00200c00b08bf6046109664130c3ff8f7006a675adecb5678cdb79a2");
    v.extend_from_slice(&[0x44; 100]);
    v.extend_from_slice(&hx("e4771e"));
    v
}

/// One entry of an archive.
struct Entry {
    name: &'static str,
    method: u16,
    packed: Vec<u8>,
    len: usize,
}

fn plain(name: &'static str, bytes: Vec<u8>) -> Entry {
    let len = bytes.len();
    Entry { name, method: 0, packed: bytes, len }
}

fn packed(name: &'static str, bytes: Vec<u8>, len: usize) -> Entry {
    Entry { name, method: 8, packed: bytes, len }
}

/// An archive of these entries.
fn archive(entries: &[Entry]) -> Vec<u8> {
    let mut z = Vec::new();
    let mut dir = Vec::new();
    for e in entries {
        let at = z.len() as u32;
        let name = format!("p/javacard/{}", e.name);
        let mut common = Vec::new();
        common.extend_from_slice(&[20, 0, 0, 0]);
        common.extend_from_slice(&e.method.to_le_bytes());
        common.extend_from_slice(&[0; 8]);
        common.extend_from_slice(&(e.packed.len() as u32).to_le_bytes());
        common.extend_from_slice(&(e.len as u32).to_le_bytes());
        common.extend_from_slice(&(name.len() as u16).to_le_bytes());
        common.extend_from_slice(&[0, 0]);
        z.extend_from_slice(b"PK\x03\x04");
        z.extend_from_slice(&common);
        z.extend_from_slice(name.as_bytes());
        z.extend_from_slice(&e.packed);
        dir.extend_from_slice(b"PK\x01\x02\x14\x00");
        dir.extend_from_slice(&common);
        dir.extend_from_slice(&[0; 10]);
        dir.extend_from_slice(&at.to_le_bytes());
        dir.extend_from_slice(name.as_bytes());
    }
    let at = z.len() as u32;
    z.extend_from_slice(&dir);
    z.extend_from_slice(b"PK\x05\x06\0\0\0\0");
    z.extend_from_slice(&(entries.len() as u16).to_le_bytes());
    z.extend_from_slice(&(entries.len() as u16).to_le_bytes());
    z.extend_from_slice(&(dir.len() as u32).to_le_bytes());
    z.extend_from_slice(&at.to_le_bytes());
    z.extend_from_slice(&[0, 0]);
    z
}

/// The components behind the one with the methods.
fn last_components() -> Vec<Entry> {
    vec![
        plain("StaticField.cap", vec![8, 0]),
        plain("Export.cap", vec![10, 0]),
        plain("ConstantPool.cap", vec![5, 0]),
        plain("RefLocation.cap", vec![9, 0]),
        plain("Descriptor.cap", vec![11, 0]),
        plain("Debug.cap", b"DBG".to_vec()),
    ]
}

/// An archive without compression.
fn stored() -> Vec<u8> {
    let mut entries = vec![
        plain("Header.cap", hx(HEADER)),
        plain("Directory.cap", vec![2, 0, 0]),
        plain("Import.cap", hx(IMPORT)),
        plain("Applet.cap", hx(APPLET)),
        plain("Class.cap", vec![6, 0]),
        plain("Method.cap", vec![7, 0, 1, 2]),
    ];
    entries.extend(last_components());
    archive(&entries)
}

/// An archive with compressed components, one of them larger than the window.
fn deflated() -> Vec<u8> {
    let mut entries = vec![
        packed("Header.cap", hx(HEADER_PACKED), 20),
        plain("Directory.cap", vec![2, 0, 0]),
        packed("Import.cap", hx(IMPORT_PACKED), 14),
        packed("Applet.cap", hx(APPLET_PACKED), 15),
        plain("Class.cap", vec![6, 0]),
        packed("Method.cap", method_packed(), 52_000),
    ];
    entries.extend(last_components());
    archive(&entries)
}

/// A compressed stream that holds its content as it is.
fn uncompressed_stream(content: &[u8]) -> Vec<u8> {
    let mut v = Vec::new();
    let blocks: Vec<&[u8]> = content.chunks(50_000).collect();
    for (i, block) in blocks.iter().enumerate() {
        let n = block.len() as u16;
        v.push(u8::from(i + 1 == blocks.len()));
        v.extend_from_slice(&n.to_le_bytes());
        v.extend_from_slice(&(!n).to_le_bytes());
        v.extend_from_slice(block);
    }
    v
}

fn stream_all(cf: &CapFile<'_>, infl: &mut InflateCtx) -> (usize, Vec<u8>) {
    let mut s = cf.lfdb();
    let total = s.len();
    let mut out: Vec<u8> = Vec::new();
    let mut buf = [0u8; LOAD_BLOCK_DATA];
    loop {
        let n = s.next_block(infl, &mut buf).expect("inflate ok");
        if n == 0 {
            break;
        }
        out.extend_from_slice(&buf[..n]);
    }
    (total, out)
}

fn assert_metadata(cf: &CapFile<'_>) {
    assert_eq!(cf.package_aid.as_bytes(), PKG_AID);
    assert_eq!(cf.components.jc_platform_version, (2, 1, 0));
    assert_eq!(cf.components.imports.len(), 1);
    assert_eq!(cf.components.imports[0].as_bytes(), IMPORT_AID);
    assert_eq!(cf.components.applets.len(), 1);
    assert_eq!(cf.components.applets[0].class_aid.as_bytes(), APPLET_AID);
    assert_eq!(cf.components.applets[0].install_method_offset, 0x001F);
}

#[test]
fn parses_stored_metadata() {
    let mut infl = InflateCtx::new();
    let zip = stored();
    let cf = parse(&zip, &mut infl).expect("parse stored");
    assert_metadata(&cf);
}

#[test]
fn parses_deflate_metadata() {
    let mut infl = InflateCtx::new();
    let zip = deflated();
    let cf = parse(&zip, &mut infl).expect("parse deflate");
    assert_metadata(&cf);
}

/// Tag and length in front of so many bytes.
fn header(content_len: usize) -> Vec<u8> {
    match content_len {
        n if n < 0x80 => vec![0xC4, n as u8],
        n if n <= 0xFF => vec![0xC4, 0x81, n as u8],
        n if n <= 0xFFFF => vec![0xC4, 0x82, (n >> 8) as u8, n as u8],
        n => vec![0xC4, 0x83, (n >> 16) as u8, (n >> 8) as u8, n as u8],
    }
}

#[test]
fn stored_lfdb_is_concatenation_in_c2_order() {
    // Header(20) Dir(3) Import(14) Applet(15) Class(2) Method(4)
    // StaticField(2) Export(2) ConstantPool(2) RefLocation(2) Descriptor(2).
    let mut infl = InflateCtx::new();
    let zip = stored();
    let cf = parse(&zip, &mut infl).expect("parse");
    let (total, out) = stream_all(&cf, &mut infl);
    assert_eq!(total, out.len());
    let content = 20 + 3 + 14 + 15 + 2 + 4 + 2 + 2 + 2 + 2 + 2;
    let header = header(content);
    let hdr = header.len();
    // Stream is `'C4' ‖ len ‖ <components>`; content is 68 B (< 0x80) so the
    // length is a single byte → header is `C4 44`.
    assert_eq!(total, hdr + content);
    assert_eq!(&out[..hdr], &header[..]);
    assert_eq!(&out[..2], &[0xC4, 0x44]);
    // First component is Header.cap → its magic is at content offset 3,
    // i.e. stream offset `hdr + 3`.
    assert_eq!(&out[hdr + 3..hdr + 7], &[0xDE, 0xCA, 0xFF, 0xED]);
    // Debug.cap content must never appear in the LFDB.
    assert!(!out.windows(3).any(|w| w == b"DBG"));
}

#[test]
fn deflate_lfdb_streams_oversized_component_through_ring() {
    // Method.cap is ~52 KiB (> the 32 KiB window): exercises the wrapping
    // ring path. Rebuild the expected block deterministically.
    let big = {
        let mut v = Vec::new();
        while v.len() < 52_000 {
            v.extend_from_slice(b"METHOD-BYTES-");
        }
        v.truncate(52_000);
        v
    };
    let mut infl = InflateCtx::new();
    let zip = deflated();
    let cf = parse(&zip, &mut infl).expect("parse");
    let (total, out) = stream_all(&cf, &mut infl);
    assert_eq!(total, out.len());
    // Header(20)+Dir(3)+Import(14)+Applet(15)+Class(2)+Method(52000)
    //   +StaticField(2)+Export(2)+ConstantPool(2)+RefLocation(2)+Descriptor(2)
    let method_start_content = 20 + 3 + 14 + 15 + 2;
    let content = method_start_content + big.len() + 2 + 2 + 2 + 2 + 2;
    let hdr = header(content).len();
    assert_eq!(total, hdr + content);
    // Method bytes begin after the `'C4'` header in the framed stream.
    let method_start = hdr + method_start_content;
    assert_eq!(&out[method_start..method_start + big.len()], &big[..]);
}

#[test]
fn lfdb_reset_re_streams_identically() {
    let mut infl = InflateCtx::new();
    let zip = stored();
    let cf = parse(&zip, &mut infl).expect("parse");
    let mut s = cf.lfdb();
    let mut buf = [0u8; LOAD_BLOCK_DATA];
    let first = s.next_block(&mut infl, &mut buf).expect("ok");
    let head_a = buf[..first].to_vec();
    s.reset();
    infl.reset();
    let second = s.next_block(&mut infl, &mut buf).expect("ok");
    assert_eq!(first, second);
    assert_eq!(head_a.as_slice(), &buf[..second]);
}

#[test]
fn not_a_zip_is_rejected() {
    let mut infl = InflateCtx::new();
    assert!(matches!(
        parse(b"definitely not a zip", &mut infl),
        Err(CapError::NotAZip)
    ));
}

#[test]
fn empty_input_is_rejected() {
    let mut infl = InflateCtx::new();
    assert!(matches!(parse(&[], &mut infl), Err(CapError::NotAZip)));
}

#[test]
fn missing_header_component_is_reported() {
    let mut z = stored();
    // Replace the first occurrence of b"Header.cap" with b"Xeader.cap".
    if let Some(p) = z.windows(10).position(|w| w == b"Header.cap") {
        z[p] = b'X';
        // It appears twice (local + central header); flip both.
        if let Some(p2) = z[p + 1..].windows(10).position(|w| w == b"Header.cap") {
            z[p + 1 + p2] = b'X';
        }
    }
    let mut infl = InflateCtx::new();
    assert!(matches!(
        parse(&z, &mut infl),
        Err(CapError::MissingComponent("Header.cap"))
    ));
}

#[test]
fn truncated_zip_does_not_panic() {
    let mut infl = InflateCtx::new();
    let zip = stored();
    for cut in [1usize, 5, 22, 40, 100, 200] {
        let n = cut.min(zip.len());
        let _ = parse(&zip[..n], &mut infl); // must not panic
    }
}

#[test]
fn corrupt_deflate_stream_errors_cleanly() {
    // Flip bytes in the compressed Method.cap region: inflate must fail with
    // a typed error rather than panic. Mutate a mid-file byte and re-parse;
    // streaming the LFDB should surface CapError::Inflate (or parse rejects).
    let mut z = deflated();
    let mid = z.len() / 2;
    z[mid] ^= 0xFF;
    z[mid + 1] ^= 0xFF;
    let mut infl = InflateCtx::new();
    // Parse may reject outright (also fine); if it accepts, draining the
    // LFDB must surface the corruption as an error, never a panic.
    if let Ok(cf) = parse(&z, &mut infl) {
        let mut s = cf.lfdb();
        let mut buf = [0u8; LOAD_BLOCK_DATA];
        while let Ok(n) = s.next_block(&mut infl, &mut buf) {
            if n == 0 {
                break; // exhausted without error
            }
        }
    }
}

#[test]
fn component_index_matches_basename_only() {
    assert_eq!(component_index(b"p/javacard/Header.cap"), Some(0));
    assert_eq!(component_index(b"Import.cap"), Some(2));
    assert_eq!(component_index(b"Applet.cap"), Some(3));
    assert_eq!(component_index(b"Debug.cap"), None); // excluded from LFDB
    assert_eq!(component_index(b"NotMyHeader.cap"), None);
    assert_eq!(component_index(b"weird\\Class.cap"), Some(4));
}

#[test]
fn content_is_streamed_whatever_the_size_of_the_pieces() {
    let mut x: u32 = 7;
    let content: Vec<u8> = (0..140_000)
        .map(|_| {
            x = x.wrapping_mul(1_664_525).wrapping_add(1_013_904_223);
            (x >> 16) as u8
        })
        .collect();
    let zip = archive(&[
        plain("Header.cap", hx(HEADER)),
        packed("Method.cap", uncompressed_stream(&content), content.len()),
        plain("Class.cap", vec![6, 0]),
    ]);
    let mut expected = header(20 + 2 + content.len());
    expected.extend_from_slice(&hx(HEADER));
    expected.extend_from_slice(&[6, 0]);
    expected.extend_from_slice(&content);
    for size in [1usize, 7, 223, 32_768, 40_000, 200_000] {
        let mut infl = InflateCtx::new();
        let cf = parse(&zip, &mut infl).unwrap();
        let mut s = cf.lfdb();
        assert_eq!(s.len(), expected.len());
        assert_eq!(s.content_len(), 22 + content.len());
        assert!(!s.is_empty());
        let mut out = Vec::new();
        let mut buf = vec![0u8; size];
        loop {
            let n = s.next_block(&mut infl, &mut buf).unwrap();
            if n == 0 {
                break;
            }
            out.extend_from_slice(&buf[..n]);
            assert!(n == size || out.len() == expected.len());
        }
        assert_eq!(out, expected);
    }
}

#[test]
fn streaming_over_again_after_half_of_a_compressed_component() {
    let zip = deflated();
    let mut infl = InflateCtx::new();
    let cf = parse(&zip, &mut infl).unwrap();
    let (_, whole) = stream_all(&cf, &mut infl);
    let mut s = cf.lfdb();
    let mut half = vec![0u8; 30_000];
    assert_eq!(s.next_block(&mut infl, &mut half).unwrap(), 30_000);
    assert_eq!(half, whole[..30_000]);
    s.reset();
    let mut again = vec![0u8; whole.len()];
    assert_eq!(s.next_block(&mut infl, &mut again).unwrap(), whole.len());
    assert_eq!(again, whole);
    assert_eq!(s.next_block(&mut infl, &mut half).unwrap(), 0);
}

#[test]
fn damaged_components_are_errors() {
    let cut = &method_packed()[..60];
    let zip = archive(&[
        plain("Header.cap", hx(HEADER)),
        packed("Method.cap", cut.to_vec(), 52_000),
    ]);
    let mut infl = InflateCtx::new();
    let cf = parse(&zip, &mut infl).unwrap();
    let mut s = cf.lfdb();
    let mut buf = vec![0u8; 60_000];
    assert_eq!(s.next_block(&mut infl, &mut buf), Err(CapError::Inflate));

    let zip = archive(&[packed("Header.cap", vec![0xFF, 0xFF], 20)]);
    assert!(matches!(parse(&zip, &mut infl), Err(CapError::Inflate)));
    let zip = archive(&[plain("Header.cap", vec![1, 0, 0, 0xDE, 0xCA, 0xFF, 0xEE])]);
    assert!(matches!(parse(&zip, &mut infl), Err(CapError::Malformed)));
}

#[test]
fn the_first_of_two_components_counts() {
    let zip = archive(&[
        plain("Header.cap", hx(HEADER)),
        plain("Class.cap", vec![1, 2, 3]),
        plain("Class.cap", vec![9, 9]),
    ]);
    let mut infl = InflateCtx::new();
    let cf = parse(&zip, &mut infl).unwrap();
    let (_, out) = stream_all(&cf, &mut infl);
    assert_eq!(&out[out.len() - 3..], &[1, 2, 3]);
    assert_eq!(out.len(), 2 + 20 + 3);
}

#[test]
fn the_headers_of_all_lengths() {
    for n in [0usize, 107, 108, 235, 236, 65_515, 65_516, 100_000] {
        let zip = archive(&[
            plain("Header.cap", hx(HEADER)),
            plain("Method.cap", vec![0x55; n]),
        ]);
        let mut infl = InflateCtx::new();
        let cf = parse(&zip, &mut infl).unwrap();
        let (total, out) = stream_all(&cf, &mut infl);
        let head = header(20 + n);
        assert_eq!(total, head.len() + 20 + n);
        assert_eq!(&out[..head.len()], &head[..]);
    }
}

#[test]
fn components_that_describe_the_file() {
    let (aid, version) = parse_header(&hx(HEADER)).unwrap();
    assert_eq!(aid.as_bytes(), PKG_AID);
    assert_eq!(version, (2, 1, 0));
    assert_eq!(parse_imports(&hx(IMPORT)).unwrap()[0].as_bytes(), IMPORT_AID);
    let applets = parse_applets(&hx(APPLET)).unwrap();
    assert_eq!(applets[0].class_aid.as_bytes(), APPLET_AID);
    assert_eq!(applets[0].install_method_offset, 0x1F);
    for n in 0..20 {
        assert!(parse_header(&hx(HEADER)[..n]).is_err());
    }
    for n in 0..14 {
        assert!(parse_imports(&hx(IMPORT)[..n]).is_err());
    }
    for n in 0..15 {
        assert!(parse_applets(&hx(APPLET)[..n]).is_err());
    }
}

#[test]
fn a_component_that_holds_more_than_it_says() {
    let content: Vec<u8> = (0..600u32).map(|i| (i % 241) as u8).collect();
    let zip = archive(&[
        plain("Header.cap", hx(HEADER)),
        packed("Method.cap", uncompressed_stream(&content), 300),
        plain("StaticField.cap", vec![8, 0]),
    ]);
    let mut infl = InflateCtx::new();
    let cf = parse(&zip, &mut infl).unwrap();
    let mut before = header(20 + 300 + 2);
    before.extend_from_slice(&hx(HEADER));
    assert_eq!(before.len(), 24);
    // The call that reaches the announced length takes what else there is room for.
    let mut s = cf.lfdb();
    let mut out = Vec::new();
    let mut buf = [0u8; 100];
    for _ in 0..4 {
        assert_eq!(s.next_block(&mut infl, &mut buf), Ok(100));
        out.extend_from_slice(&buf);
    }
    assert_eq!(out[..24], before);
    assert_eq!(out[24..], content[..376]);
    assert_eq!(s.next_block(&mut infl, &mut buf), Ok(2));
    assert_eq!(buf[..2], [8, 0]);
    assert_eq!(s.next_block(&mut infl, &mut buf), Ok(0));
    // With room for everything all of it comes.
    s.reset();
    let mut buf = vec![0xEE; 1000];
    assert_eq!(s.next_block(&mut infl, &mut buf), Ok(24 + 600 + 2));
    assert_eq!(buf[24..624], content);
    assert_eq!(buf[624..626], [8, 0]);
    assert!(buf[626..].iter().all(|b| *b == 0xEE));
    // Where the announced length is reached exactly at the end of a call, that is all.
    s.reset();
    let mut buf = vec![0u8; 324];
    assert_eq!(s.next_block(&mut infl, &mut buf), Ok(324));
    assert_eq!(buf[24..], content[..300]);
    assert_eq!(s.next_block(&mut infl, &mut buf), Ok(2));
}

#[test]
fn a_component_that_is_corrupt_behind_what_it_says() {
    // A block that ends well and is not the last one, and then nonsense.
    let mut stream = vec![0x00, 50, 0, 0xCD, 0xFF];
    stream.extend_from_slice(&[7; 50]);
    stream.push(0x07);
    let zip = archive(&[
        plain("Header.cap", hx(HEADER)),
        packed("Method.cap", stream, 50),
        plain("StaticField.cap", vec![8, 0]),
    ]);
    let mut infl = InflateCtx::new();
    let cf = parse(&zip, &mut infl).unwrap();
    let mut s = cf.lfdb();
    let mut buf = vec![0u8; 200];
    assert_eq!(s.next_block(&mut infl, &mut buf), Err(CapError::Inflate));
    // Nothing comes of the call that fails, so that less room does not help.
    s.reset();
    let mut buf = vec![0u8; 40];
    assert_eq!(s.next_block(&mut infl, &mut buf), Err(CapError::Inflate));
    s.reset();
    let mut buf = vec![0u8; 22];
    assert_eq!(s.next_block(&mut infl, &mut buf), Ok(22));
}

#[test]
fn a_component_that_refers_back_to_before_its_beginning() {
    // Three bytes from one byte back, at the very beginning.
    let stream = vec![0x03, 0x02, 0x00];
    let zip = archive(&[
        plain("Header.cap", hx(HEADER)),
        packed("Method.cap", stream.clone(), 3),
        plain("StaticField.cap", vec![8, 0]),
    ]);
    let mut infl = InflateCtx::new();
    let cf = parse(&zip, &mut infl).unwrap();
    let (total, out) = stream_all(&cf, &mut infl);
    assert_eq!(total, 2 + 20 + 3 + 2);
    assert_eq!(out.len(), total);
    assert_eq!(out[22..], [0, 0, 0, 8, 0]);
    assert_eq!(stream_all(&cf, &mut infl).1.len(), total);
    // A component that describes the file may not do that.
    let zip = archive(&[packed("Header.cap", stream, 3)]);
    assert!(matches!(parse(&zip, &mut infl), Err(CapError::Inflate)));
}

#[test]
fn a_reader_that_was_set_back_is_as_good_as_new() {
    let zip = deflated();
    let mut infl = InflateCtx::new();
    let cf = parse(&zip, &mut infl).unwrap();
    let rooms = [1usize, 50, 223, 40_000, 3, 0, 20_000, 10];
    let run = |s: &mut scll::cap::LoadFileDataBlock<'_>, infl: &mut InflateCtx| {
        let mut calls = Vec::new();
        for room in rooms {
            let mut buf = vec![0u8; room];
            let n = s.next_block(infl, &mut buf).unwrap();
            calls.push(buf[..n].to_vec());
        }
        calls
    };
    let mut s = cf.lfdb();
    let (len, content_len) = (s.len(), s.content_len());
    let first = run(&mut s, &mut infl);
    s.reset();
    infl.reset();
    assert_eq!((s.len(), s.content_len()), (len, content_len));
    assert_eq!(run(&mut s, &mut infl), first);
    let mut fresh = InflateCtx::new();
    assert_eq!(run(&mut cf.lfdb(), &mut fresh), first);
    assert_eq!(first[0], [0xC4]);
}
