//! PNG preview generation and structural validation.
//!
//! Previews are written as RGBA images whose zlib stream uses stored
//! (uncompressed) deflate blocks, so every byte of the file is determined by
//! the image size. Validation checks the signature, chunk framing, chunk
//! checksums, and the header fields without decoding pixel data.

use vstd::prelude::*;

verus! {

/// The eight-byte PNG file signature.
pub open spec fn signature() -> Seq<u8> {
    seq![0x89u8, 0x50u8, 0x4eu8, 0x47u8, 0x0du8, 0x0au8, 0x1au8, 0x0au8]
}

/// One bit of the reflected CRC-32 (polynomial 0xEDB88320).
pub open spec fn crc_step(c: u32) -> u32 {
    if c & 1 == 1 {
        (c >> 1) ^ 0xedb8_8320u32
    } else {
        c >> 1
    }
}

/// `n` bits of the CRC-32 register update.
pub open spec fn crc_bits(c: u32, n: nat) -> u32
    decreases n,
{
    if n == 0 {
        c
    } else {
        crc_bits(crc_step(c), (n - 1) as nat)
    }
}

/// The CRC-32 register after absorbing one byte.
pub open spec fn crc_byte(c: u32, b: u8) -> u32 {
    crc_bits(c ^ (b as u32), 8)
}

/// The CRC-32 register after absorbing `s`, starting from all ones.
pub open spec fn crc_register(s: Seq<u8>) -> u32
    decreases s.len(),
{
    if s.len() == 0 {
        0xffff_ffffu32
    } else {
        crc_byte(crc_register(s.drop_last()), s.last())
    }
}

/// The CRC-32 checksum that PNG chunks carry.
pub open spec fn crc32_of(s: Seq<u8>) -> u32 {
    !crc_register(s)
}

/// The modulus of the Adler-32 sums.
pub open spec fn adler_base() -> u32 {
    65_521
}

/// The two Adler-32 running sums after absorbing `s`.
pub open spec fn adler_sums(s: Seq<u8>) -> (u32, u32)
    decreases s.len(),
{
    if s.len() == 0 {
        (1, 0)
    } else {
        let (a, b) = adler_sums(s.drop_last());
        let a2 = ((a + s.last()) % 65_521) as u32;
        (a2, ((b + a2) % 65_521) as u32)
    }
}

/// The Adler-32 checksum that closes a zlib stream.
pub open spec fn adler32_of(s: Seq<u8>) -> u32 {
    let (a, b) = adler_sums(s);
    (b << 16) | a
}

/// Big-endian bytes of a 32-bit value.
pub open spec fn be32(x: u32) -> Seq<u8> {
    seq![(x >> 24) as u8, (x >> 16) as u8, (x >> 8) as u8, x as u8]
}

/// Little-endian bytes of a 16-bit value.
pub open spec fn le16(x: u16) -> Seq<u8> {
    seq![x as u8, (x >> 8) as u8]
}

/// The 32-bit value stored big-endian at `s[at..at + 4]`.
pub open spec fn read_be32(s: Seq<u8>, at: int) -> u32 {
    ((s[at] as u32) << 24) | ((s[at + 1] as u32) << 16) | ((s[at + 2] as u32) << 8) | (s[at
        + 3] as u32)
}

/// A complete chunk: length, type, data, and CRC of type and data.
pub open spec fn chunk_bytes(kind: Seq<u8>, data: Seq<u8>) -> Seq<u8> {
    be32(data.len() as u32) + kind + data + be32(crc32_of(kind + data))
}

/// Reading back the big-endian bytes of a value gives the value.
pub proof fn lemma_be32_roundtrip(x: u32)
    ensures
        read_be32(be32(x), 0) == x,
{
    let b0 = (x >> 24) as u8;
    let b1 = (x >> 16) as u8;
    let b2 = (x >> 8) as u8;
    let b3 = x as u8;
    assert(((b0 as u32) << 24) | ((b1 as u32) << 16) | ((b2 as u32) << 8) | (b3 as u32) == x)
        by (bit_vector)
        requires
            b0 == (x >> 24) as u8,
            b1 == (x >> 16) as u8,
            b2 == (x >> 8) as u8,
            b3 == x as u8,
    ;
}

/// Big-endian bytes of a 32-bit value.
pub fn be32_bytes(x: u32) -> (r: [u8; 4])
    ensures
        r@ == be32(x),
{
    let r = [(x >> 24) as u8, (x >> 16) as u8, (x >> 8) as u8, x as u8];
    assert(r@ == be32(x));
    r
}

/// Reads a big-endian 32-bit value at `at`.
pub fn read_be32_at(s: &[u8], at: usize) -> (r: u32)
    requires
        at + 4 <= s@.len(),
    ensures
        r == read_be32(s@, at as int),
{
    ((s[at] as u32) << 24) | ((s[at + 1] as u32) << 16) | ((s[at + 2] as u32) << 8) | (s[at
        + 3] as u32)
}

/// Appends all bytes of `src` to `out`.
pub fn extend_bytes(out: &mut Vec<u8>, src: &[u8])
    ensures
        final(out)@ == old(out)@ + src@,
{
    let mut i: usize = 0;
    while i < src.len()
        invariant
            i <= src.len(),
            out@ == old(out)@ + src@.take(i as int),
        decreases src.len() - i,
    {
        out.push(src[i]);
        assert(src@.take(i + 1) == src@.take(i as int).push(src@[i as int]));
        i = i + 1;
    }
    assert(src@.take(src.len() as int) == src@);
}

/// Absorbs one byte into a CRC-32 register.
fn crc_absorb(c: u32, b: u8) -> (r: u32)
    ensures
        r == crc_byte(c, b),
{
    let mut crc = c ^ (b as u32);
    let mut k: u32 = 0;
    while k < 8
        invariant
            k <= 8,
            crc_bits(crc, (8 - k) as nat) == crc_byte(c, b),
        decreases 8 - k,
    {
        crc = if crc & 1 == 1 {
            (crc >> 1) ^ 0xedb8_8320u32
        } else {
            crc >> 1
        };
        k = k + 1;
    }
    crc
}

/// Computes the CRC-32 checksum used by PNG chunks.
pub fn crc32(data: &[u8]) -> (r: u32)
    ensures
        r == crc32_of(data@),
{
    let mut crc: u32 = 0xffff_ffff;
    let mut i: usize = 0;
    while i < data.len()
        invariant
            i <= data.len(),
            crc == crc_register(data@.take(i as int)),
        decreases data.len() - i,
    {
        crc = crc_absorb(crc, data[i]);
        assert(data@.take(i + 1).drop_last() == data@.take(i as int));
        i = i + 1;
    }
    assert(data@.take(data.len() as int) == data@);
    !crc
}

/// Computes the Adler-32 checksum that closes a zlib stream.
pub fn adler32(data: &[u8]) -> (r: u32)
    ensures
        r == adler32_of(data@),
{
    let mut a: u32 = 1;
    let mut b: u32 = 0;
    let mut i: usize = 0;
    while i < data.len()
        invariant
            i <= data.len(),
            (a, b) == adler_sums(data@.take(i as int)),
            a < 65_521,
            b < 65_521,
        decreases data.len() - i,
    {
        assert(data@.take(i + 1).drop_last() == data@.take(i as int));
        a = (a + data[i] as u32) % 65_521;
        b = (b + a) % 65_521;
        i = i + 1;
    }
    assert(data@.take(data.len() as int) == data@);
    (b << 16) | a
}

/// Appends one complete chunk to `output`.
pub fn write_chunk(output: &mut Vec<u8>, kind: &[u8; 4], data: &[u8])
    requires
        data@.len() <= u32::MAX,
    ensures
        final(output)@ == old(output)@ + chunk_bytes(kind@, data@),
{
    let len = data.len() as u32;
    let lb = be32_bytes(len);
    extend_bytes(output, &lb);
    extend_bytes(output, kind);
    extend_bytes(output, data);
    let start = output.len() - data.len() - 4;
    let tail = crc_input(output, start);
    assert(tail@ == kind@ + data@) by {
        assert(output@ == old(output)@ + be32(len) + kind@ + data@);
        assert(output@.skip(start as int) =~= kind@ + data@);
    }
    let cb = be32_bytes(crc32(tail.as_slice()));
    extend_bytes(output, &cb);
}

/// Copies `v[start..]`.
fn crc_input(v: &Vec<u8>, start: usize) -> (r: Vec<u8>)
    requires
        start <= v.len(),
    ensures
        r@ == v@.skip(start as int),
{
    let mut r: Vec<u8> = Vec::new();
    let mut i = start;
    while i < v.len()
        invariant
            start <= i <= v.len(),
            r@ == v@.subrange(start as int, i as int),
        decreases v.len() - i,
    {
        r.push(v[i]);
        assert(v@.subrange(start as int, i + 1) == v@.subrange(start as int, i as int).push(
            v@[i as int],
        ));
        i = i + 1;
    }
    r
}


/// Chunk type `IHDR`.
pub open spec fn ihdr() -> Seq<u8> {
    seq![73u8, 72u8, 68u8, 82u8]
}

/// Chunk type `IDAT`.
pub open spec fn idat() -> Seq<u8> {
    seq![73u8, 68u8, 65u8, 84u8]
}

/// Chunk type `IEND`.
pub open spec fn iend() -> Seq<u8> {
    seq![73u8, 69u8, 78u8, 68u8]
}

/// Chunk type `PLTE`.
pub open spec fn plte() -> Seq<u8> {
    seq![80u8, 76u8, 84u8, 69u8]
}

/// One opaque RGBA pixel in the scaffold color.
pub open spec fn pixel() -> Seq<u8> {
    seq![44u8, 48u8, 46u8, 255u8]
}

/// `w` pixels in the scaffold color.
pub open spec fn pixels(w: nat) -> Seq<u8>
    decreases w,
{
    if w == 0 {
        Seq::empty()
    } else {
        pixels((w - 1) as nat) + pixel()
    }
}

/// One scanline: filter type 0 followed by `w` pixels.
pub open spec fn scanline(w: nat) -> Seq<u8> {
    seq![0u8] + pixels(w)
}

/// The raw (unfiltered) image data: `h` scanlines.
pub open spec fn raw_image(w: nat, h: nat) -> Seq<u8>
    decreases h,
{
    if h == 0 {
        Seq::empty()
    } else {
        raw_image(w, (h - 1) as nat) + scanline(w)
    }
}

/// Stored deflate blocks holding `s`, at most 65 535 bytes each.
pub open spec fn stored_blocks(s: Seq<u8>) -> Seq<u8>
    decreases s.len(),
{
    if s.len() == 0 {
        Seq::empty()
    } else {
        let len: int = if s.len() < 65_535 { s.len() as int } else { 65_535 };
        let fin: u8 = if len == s.len() { 1 } else { 0 };
        seq![fin] + le16(len as u16) + le16(!(len as u16)) + s.take(len) + stored_blocks(s.skip(len))
    }
}

/// A zlib stream with stored blocks and its Adler-32 trailer.
pub open spec fn zlib_stored(s: Seq<u8>) -> Seq<u8> {
    seq![0x78u8, 0x01u8] + stored_blocks(s) + be32(adler32_of(s))
}

/// The IHDR data of an 8-bit RGBA image.
pub open spec fn header_data(w: u32, h: u32) -> Seq<u8> {
    be32(w) + be32(h) + seq![8u8, 6u8, 0u8, 0u8, 0u8]
}

/// The complete preview file for a `w` by `h` image.
pub open spec fn png_bytes(w: u32, h: u32) -> Seq<u8> {
    signature() + chunk_bytes(ihdr(), header_data(w, h)) + chunk_bytes(
        idat(),
        zlib_stored(raw_image(w as nat, h as nat)),
    ) + chunk_bytes(iend(), Seq::empty())
}

/// The number of raw image bytes: `h * (1 + 4 * w)`.
pub open spec fn raw_len(w: u32, h: u32) -> int {
    (h as int) * (1 + 4 * (w as int))
}

proof fn lemma_pixels_len(w: nat)
    ensures
        pixels(w).len() == 4 * w,
    decreases w,
{
    if w > 0 {
        lemma_pixels_len((w - 1) as nat);
    }
}

proof fn lemma_raw_len(w: nat, h: nat)
    ensures
        raw_image(w, h).len() == h * (1 + 4 * w),
    decreases h,
{
    lemma_pixels_len(w);
    if h > 0 {
        let hp = (h - 1) as nat;
        lemma_raw_len(w, hp);
        assert(scanline(w).len() == 1 + 4 * w);
        assert(raw_image(w, h).len() == raw_image(w, hp).len() + scanline(w).len());
        assert(hp * (1 + 4 * w) + (1 + 4 * w) == h * (1 + 4 * w)) by (nonlinear_arith)
            requires
                hp + 1 == h,
        ;
    } else {
        assert(h * (1 + 4 * w) == 0) by (nonlinear_arith)
            requires
                h == 0,
        ;
    }
}

/// The length of the IDAT data for `raw` image bytes: the zlib header,
/// one five-byte header per stored block of at most 65 535 bytes, the bytes
/// themselves and the Adler-32 trailer.
pub open spec fn idat_len(raw: int) -> int {
    6 + raw + 5 * ((raw + 65_534) / 65_535)
}

proof fn lemma_stored_len(s: Seq<u8>)
    ensures
        stored_blocks(s).len() == s.len() + 5 * ((s.len() + 65_534) / 65_535),
    decreases s.len(),
{
    let n = s.len() as int;
    if n > 0 {
        let len: int = if n < 65_535 { n } else { 65_535 };
        lemma_stored_len(s.skip(len));
        if n < 65_535 {
            assert((n + 65_534) / 65_535 == 1);
            assert((0int + 65_534) / 65_535 == 0);
        } else {
            assert((n - 65_535 + 65_534) / 65_535 + 1 == (n + 65_534) / 65_535) by (nonlinear_arith)
                requires
                    n >= 65_535,
            ;
        }
    }
}

/// Little-endian bytes of a 16-bit value.
fn le16_bytes(x: u16) -> (r: [u8; 2])
    ensures
        r@ == le16(x),
{
    let r = [x as u8, (x >> 8) as u8];
    assert(r@ == le16(x));
    r
}

/// Builds the zlib stream of stored blocks for `raw`.
fn zlib_stream(raw: &Vec<u8>) -> (r: Vec<u8>)
    ensures
        r@ == zlib_stored(raw@),
{
    let mut out: Vec<u8> = Vec::new();
    out.push(0x78);
    out.push(0x01);
    let mut pos: usize = 0;
    assert(raw@.skip(0) == raw@);
    while pos < raw.len()
        invariant
            pos <= raw.len(),
            seq![0x78u8, 0x01u8] + stored_blocks(raw@) == out@ + stored_blocks(raw@.skip(pos as int)),
        decreases raw.len() - pos,
    {
        let remaining = raw.len() - pos;
        let length = if remaining < 65_535 { remaining } else { 65_535 };
        let fin: u8 = if length == remaining { 1 } else { 0 };
        let ghost rest = raw@.skip(pos as int);
        let ghost before = out@;
        out.push(fin);
        let l16 = length as u16;
        let a = le16_bytes(l16);
        extend_bytes(&mut out, &a);
        let b = le16_bytes(!l16);
        extend_bytes(&mut out, &b);
        let mut i = pos;
        while i < pos + length
            invariant
                pos <= i <= pos + length <= raw.len(),
                out@ == before + seq![fin] + le16(l16) + le16(!l16) + raw@.subrange(pos as int, i as int),
            decreases pos + length - i,
        {
            out.push(raw[i]);
            assert(raw@.subrange(pos as int, i + 1) == raw@.subrange(pos as int, i as int).push(raw@[i as int]));
            i = i + 1;
        }
        proof {
            assert(rest.take(length as int) == raw@.subrange(pos as int, (pos + length) as int));
            assert(rest.skip(length as int) == raw@.skip(pos + length));
            assert(stored_blocks(rest) == seq![fin] + le16(l16) + le16(!l16) + rest.take(length as int)
                + stored_blocks(rest.skip(length as int)));
        }
        pos = pos + length;
    }
    proof {
        assert(raw@.skip(pos as int).len() == 0);
        assert(stored_blocks(raw@.skip(pos as int)) == Seq::<u8>::empty());
    }
    let ad = be32_bytes(adler32(raw.as_slice()));
    extend_bytes(&mut out, &ad);
    out
}

/// Generates a valid RGBA PNG of the given size with an uncompressed zlib stream.
pub fn generate(width: u32, height: u32) -> (png: Vec<u8>)
    requires
        idat_len(raw_len(width, height)) <= u32::MAX,
    ensures
        png@ == png_bytes(width, height),
{
    proof {
        lemma_raw_len(width as nat, height as nat);
        lemma_pixels_len(width as nat);
        assert(0 <= (height as int) * (1 + 4 * (width as int))) by (nonlinear_arith);
        assert(1 + 4 * (width as int) <= (height as int) * (1 + 4 * (width as int)) || height == 0)
            by (nonlinear_arith);
    }
    let mut row: Vec<u8> = Vec::new();
    row.push(0);
    let mut k: u32 = 0;
    while k < width
        invariant
            k <= width,
            row@ == seq![0u8] + pixels(k as nat),
        decreases width - k,
    {
        let px = [44u8, 48u8, 46u8, 255u8];
        assert(px@ == pixel());
        extend_bytes(&mut row, &px);
        assert(seq![0u8] + pixels((k + 1) as nat) == seq![0u8] + pixels(k as nat) + pixel());
        k = k + 1;
    }
    let mut raw: Vec<u8> = Vec::new();
    let mut r: u32 = 0;
    while r < height
        invariant
            r <= height,
            row@ == scanline(width as nat),
            raw@ == raw_image(width as nat, r as nat),
            idat_len(raw_len(width, height)) <= u32::MAX,
        decreases height - r,
    {
        proof {
            lemma_raw_len(width as nat, r as nat);
            lemma_raw_len(width as nat, (r + 1) as nat);
            lemma_pixels_len(width as nat);
            assert(((r + 1) as int) * (1 + 4 * (width as int)) <= (height as int) * (1 + 4
                * (width as int))) by (nonlinear_arith)
                requires
                    r < height,
            ;
        }
        extend_bytes(&mut raw, row.as_slice());
        r = r + 1;
    }
    let compressed = zlib_stream(&raw);
    proof {
        lemma_stored_len(raw@);
    }
    let mut png: Vec<u8> = Vec::new();
    let sig = [0x89u8, 0x50u8, 0x4eu8, 0x47u8, 0x0du8, 0x0au8, 0x1au8, 0x0au8];
    assert(sig@ == signature());
    extend_bytes(&mut png, &sig);
    let mut header: Vec<u8> = Vec::new();
    let wb = be32_bytes(width);
    extend_bytes(&mut header, &wb);
    let hb = be32_bytes(height);
    extend_bytes(&mut header, &hb);
    let tail = [8u8, 6u8, 0u8, 0u8, 0u8];
    extend_bytes(&mut header, &tail);
    assert(header@ == header_data(width, height));
    let k_ihdr = [73u8, 72u8, 68u8, 82u8];
    let k_idat = [73u8, 68u8, 65u8, 84u8];
    let k_iend = [73u8, 69u8, 78u8, 68u8];
    assert(k_ihdr@ == ihdr() && k_idat@ == idat() && k_iend@ == iend());
    write_chunk(&mut png, &k_ihdr, header.as_slice());
    write_chunk(&mut png, &k_idat, compressed.as_slice());
    let empty: Vec<u8> = Vec::new();
    write_chunk(&mut png, &k_iend, empty.as_slice());
    assert(empty@ == Seq::<u8>::empty());
    png
}


/// Why a byte string is not an accepted PNG.
#[derive(Debug, Clone, Copy, PartialEq, Eq, Structural)]
pub enum PngError {
    /// The file does not start with the PNG signature.
    Signature,
    /// A chunk header runs past the end of the file.
    TruncatedHeader,
    /// A chunk's data or checksum runs past the end of the file.
    TruncatedData,
    /// A chunk's CRC does not match its type and data; carries the type.
    Checksum(u8, u8, u8, u8),
    /// IHDR is repeated, misplaced, or not 13 bytes long.
    InvalidIhdr,
    /// IHDR holds a zero size or an unsupported depth, color, or method.
    UnsupportedHeader,
    /// IEND carries data or is not the last chunk.
    InvalidIend,
    /// An unknown critical chunk; carries the type.
    UnsupportedCritical(u8, u8, u8, u8),
    /// IDAT or IEND never appeared.
    MissingChunks,
    /// IHDR never appeared.
    MissingIhdr,
}

/// The bit depths that a PNG color type allows.
pub open spec fn valid_color_depth(color: u8, depth: u8) -> bool {
    ||| color == 0 && (depth == 1 || depth == 2 || depth == 4 || depth == 8 || depth == 16)
    ||| color == 2 && (depth == 8 || depth == 16)
    ||| color == 3 && (depth == 1 || depth == 2 || depth == 4 || depth == 8)
    ||| (color == 4 || color == 6) && (depth == 8 || depth == 16)
}

/// Whether the 13 IHDR bytes describe a supported image.
pub open spec fn header_supported(c: Seq<u8>) -> bool {
    &&& read_be32(c, 0) != 0
    &&& read_be32(c, 4) != 0
    &&& valid_color_depth(c[9], c[8])
    &&& c[10] == 0
    &&& c[11] == 0
    &&& c[12] <= 1
}

/// The result once every chunk has been read.
pub open spec fn scan_finish(dims: Option<(u32, u32)>, saw_data: bool, saw_end: bool) -> Result<
    (u32, u32),
    PngError,
> {
    if !saw_data || !saw_end {
        Err(PngError::MissingChunks)
    } else {
        match dims {
            Some(d) => Ok(d),
            None => Err(PngError::MissingIhdr),
        }
    }
}

/// Validation of the chunks from `offset` on, given what earlier chunks established.
pub open spec fn scan_chunks(
    data: Seq<u8>,
    offset: int,
    dims: Option<(u32, u32)>,
    saw_data: bool,
    saw_end: bool,
) -> Result<(u32, u32), PngError>
    decreases data.len() - offset,
{
    if offset >= data.len() || offset < 0 {
        scan_finish(dims, saw_data, saw_end)
    } else if offset + 8 > data.len() {
        Err(PngError::TruncatedHeader)
    } else {
        let length = read_be32(data, offset) as int;
        let data_end = offset + 8 + length;
        let next = data_end + 4;
        if next > data.len() {
            Err(PngError::TruncatedData)
        } else if crc32_of(data.subrange(offset + 4, data_end)) != read_be32(data, data_end) {
            Err(PngError::Checksum(data[offset + 4], data[offset + 5], data[offset + 6], data[offset + 7]))
        } else {
            let kind = data.subrange(offset + 4, offset + 8);
            let chunk = data.subrange(offset + 8, data_end);
            if kind == ihdr() {
                if dims is Some || offset != 8 || length != 13 {
                    Err(PngError::InvalidIhdr)
                } else if !header_supported(chunk) {
                    Err(PngError::UnsupportedHeader)
                } else {
                    scan_chunks(data, next, Some((read_be32(chunk, 0), read_be32(chunk, 4))), saw_data, saw_end)
                }
            } else if kind == idat() {
                scan_chunks(data, next, dims, true, saw_end)
            } else if kind == iend() {
                if length != 0 || next != data.len() {
                    Err(PngError::InvalidIend)
                } else {
                    scan_chunks(data, next, dims, saw_data, true)
                }
            } else if kind == plte() {
                scan_chunks(data, next, dims, saw_data, saw_end)
            } else if 65 <= data[offset + 4] <= 90 {
                Err(PngError::UnsupportedCritical(data[offset + 4], data[offset + 5], data[offset + 6], data[offset + 7]))
            } else {
                scan_chunks(data, next, dims, saw_data, saw_end)
            }
        }
    }
}

/// The dimensions of an accepted PNG, or why it is rejected.
pub open spec fn png_check(data: Seq<u8>) -> Result<(u32, u32), PngError> {
    if data.len() < 8 || data.take(8) != signature() {
        Err(PngError::Signature)
    } else {
        scan_chunks(data, 8, None, false, false)
    }
}

/// The text of `String::from_utf8_lossy` for `bytes`.
pub uninterp spec fn utf8_lossy(bytes: Seq<u8>) -> Seq<char>;

/// Decodes bytes as UTF-8, replacing invalid sequences with U+FFFD
/// (`String::from_utf8_lossy`). The documented fact stated here: ASCII bytes
/// decode to the characters with the same codes.
#[verifier::external_body]
fn lossy_text(bytes: &[u8]) -> (r: String)
    ensures
        r@ == utf8_lossy(bytes@),
        (forall|i: int| 0 <= i < bytes@.len() ==> bytes@[i] < 128) ==> r@.len() == bytes@.len()
            && forall|i: int| 0 <= i < bytes@.len() ==> r@[i] as u32 == bytes@[i] as u32,
{
    String::from_utf8_lossy(bytes).into_owned()
}

/// The message that explains a rejection.
pub open spec fn png_error_text(e: PngError) -> Seq<char> {
    match e {
        PngError::Signature => "invalid PNG signature"@,
        PngError::TruncatedHeader => "truncated PNG chunk header"@,
        PngError::TruncatedData => "truncated PNG chunk data"@,
        PngError::Checksum(a, b, c, d) => "invalid "@ + utf8_lossy(seq![a, b, c, d])
            + " chunk checksum"@,
        PngError::InvalidIhdr => "invalid IHDR chunk"@,
        PngError::UnsupportedHeader => "unsupported PNG header"@,
        PngError::InvalidIend => "invalid IEND chunk"@,
        PngError::UnsupportedCritical(a, b, c, d) => "unsupported critical PNG chunk "@
            + utf8_lossy(seq![a, b, c, d]),
        PngError::MissingChunks => "PNG requires IDAT and IEND chunks"@,
        PngError::MissingIhdr => "PNG requires an IHDR chunk"@,
    }
}

/// Whether a text is the four characters whose codes are the bytes of a
/// chunk type.
pub open spec fn spells(t: Seq<char>, a: u8, b: u8, c: u8, d: u8) -> bool {
    &&& t.len() == 4
    &&& t[0] as u32 == a as u32
    &&& t[1] as u32 == b as u32
    &&& t[2] as u32 == c as u32
    &&& t[3] as u32 == d as u32
}

/// Whether four bytes are all ASCII.
pub open spec fn all_ascii(a: u8, b: u8, c: u8, d: u8) -> bool {
    a < 128 && b < 128 && c < 128 && d < 128
}

/// Decodes a chunk type; an ASCII one decodes to its own characters.
fn chunk_text(a: u8, b: u8, c: u8, d: u8) -> (t: String)
    ensures
        t@ == utf8_lossy(seq![a, b, c, d]),
        all_ascii(a, b, c, d) ==> spells(t@, a, b, c, d),
{
    let k = [a, b, c, d];
    assert(k@ == seq![a, b, c, d]);
    let t = lossy_text(&k);
    proof {
        if all_ascii(a, b, c, d) {
            assert forall|i: int| 0 <= i < k@.len() implies k@[i] < 128 by {
                assert(k@[0] == a && k@[1] == b && k@[2] == c && k@[3] == d);
            }
            assert(t@.len() == 4);
            assert(t@[0] as u32 == a as u32);
            assert(t@[1] as u32 == b as u32);
            assert(t@[2] as u32 == c as u32);
            assert(t@[3] as u32 == d as u32);
        }
    }
    t
}

impl PngError {
    /// The message that explains the rejection; a chunk type made of ASCII
    /// bytes appears as those characters.
    pub fn message(&self) -> (m: String)
        ensures
            m@ == png_error_text(*self),
            *self matches PngError::Checksum(a, b, c, d)
                ==> (all_ascii(a, b, c, d) ==> spells(utf8_lossy(seq![a, b, c, d]), a, b, c, d)),
            *self matches PngError::UnsupportedCritical(a, b, c, d)
                ==> (all_ascii(a, b, c, d) ==> spells(utf8_lossy(seq![a, b, c, d]), a, b, c, d)),
    {
        match *self {
            PngError::Signature => "invalid PNG signature".to_owned(),
            PngError::TruncatedHeader => "truncated PNG chunk header".to_owned(),
            PngError::TruncatedData => "truncated PNG chunk data".to_owned(),
            PngError::Checksum(a, b, c, d) => {
                let mut m = "invalid ".to_owned();
                let t = chunk_text(a, b, c, d);
                crate::text::push_str(&mut m, t.as_str());
                crate::text::push_str(&mut m, " chunk checksum");
                m
            },
            PngError::InvalidIhdr => "invalid IHDR chunk".to_owned(),
            PngError::UnsupportedHeader => "unsupported PNG header".to_owned(),
            PngError::InvalidIend => "invalid IEND chunk".to_owned(),
            PngError::UnsupportedCritical(a, b, c, d) => {
                let mut m = "unsupported critical PNG chunk ".to_owned();
                let t = chunk_text(a, b, c, d);
                crate::text::push_str(&mut m, t.as_str());
                m
            },
            PngError::MissingChunks => "PNG requires IDAT and IEND chunks".to_owned(),
            PngError::MissingIhdr => "PNG requires an IHDR chunk".to_owned(),
        }
    }
}

/// Whether `data` starts with the PNG signature.
fn has_signature(data: &[u8]) -> (r: bool)
    ensures
        r == (data@.len() >= 8 && data@.take(8) == signature()),
{
    if data.len() < 8 {
        return false;
    }
    let r = data[0] == 0x89 && data[1] == 0x50 && data[2] == 0x4e && data[3] == 0x47 && data[4]
        == 0x0d && data[5] == 0x0a && data[6] == 0x1a && data[7] == 0x0a;
    assert(r == (data@.take(8) =~= signature()));
    r
}

/// Validates PNG framing, critical chunks, checksums, and header fields,
/// returning the image dimensions or the reason for rejection.
pub fn check_png(data: &[u8]) -> (r: Result<(u32, u32), PngError>)
    ensures
        r == png_check(data@),
{
    if !has_signature(data) {
        return Err(PngError::Signature);
    }
    let mut offset: usize = 8;
    let mut dims: Option<(u32, u32)> = None;
    let mut saw_data = false;
    let mut saw_end = false;
    while offset < data.len()
        invariant
            8 <= offset,
            png_check(data@) == scan_chunks(data@, offset as int, dims, saw_data, saw_end),
        decreases data.len() - offset,
    {
        if data.len() - offset < 8 {
            return Err(PngError::TruncatedHeader);
        }
        let length = read_be32_at(data, offset) as usize;
        let header_end = offset + 8;
        if length > data.len() - header_end || data.len() - header_end - length < 4 {
            return Err(PngError::TruncatedData);
        }
        let data_end = header_end + length;
        let expected = read_be32_at(data, data_end);
        let covered = &data[offset + 4..data_end];
        if crc32(covered) != expected {
            return Err(PngError::Checksum(data[offset + 4], data[offset + 5], data[offset + 6], data[offset + 7]));
        }
        let k0 = data[offset + 4];
        let k1 = data[offset + 5];
        let k2 = data[offset + 6];
        let k3 = data[offset + 7];
        let ghost kind = data@.subrange(offset + 4, offset + 8);
        assert(kind == seq![k0, k1, k2, k3]);
        let next = data_end + 4;
        if k0 == 73 && k1 == 72 && k2 == 68 && k3 == 82 {
            assert(kind == ihdr());
            if dims.is_some() || offset != 8 || length != 13 {
                return Err(PngError::InvalidIhdr);
            }
            let width = read_be32_at(data, header_end);
            let height = read_be32_at(data, header_end + 4);
            let depth = data[header_end + 8];
            let color = data[header_end + 9];
            let valid = (color == 0 && (depth == 1 || depth == 2 || depth == 4 || depth == 8
                || depth == 16)) || (color == 2 && (depth == 8 || depth == 16)) || (color == 3 && (
            depth == 1 || depth == 2 || depth == 4 || depth == 8)) || ((color == 4 || color == 6)
                && (depth == 8 || depth == 16));
            let ghost chunk = data@.subrange(header_end as int, data_end as int);
            assert(read_be32(chunk, 0) == width && read_be32(chunk, 4) == height);
            assert(chunk[8] == depth && chunk[9] == color && chunk[10] == data@[header_end + 10]
                && chunk[11] == data@[header_end + 11] && chunk[12] == data@[header_end + 12]);
            if width == 0 || height == 0 || !valid || data[header_end + 10] != 0
                || data[header_end + 11] != 0 || data[header_end + 12] > 1 {
                return Err(PngError::UnsupportedHeader);
            }
            dims = Some((width, height));
        } else if k0 == 73 && k1 == 68 && k2 == 65 && k3 == 84 {
            assert(kind == idat());
            assert(kind != ihdr());
            saw_data = true;
        } else if k0 == 73 && k1 == 69 && k2 == 78 && k3 == 68 {
            assert(kind == iend());
            assert(kind != ihdr() && kind != idat());
            if length != 0 || next != data.len() {
                return Err(PngError::InvalidIend);
            }
            saw_end = true;
        } else if k0 == 80 && k1 == 76 && k2 == 84 && k3 == 69 {
            assert(kind == plte());
            assert(kind != ihdr() && kind != idat() && kind != iend());
        } else {
            assert(kind != ihdr() && kind != idat() && kind != iend() && kind != plte()) by {
                if kind == ihdr() { assert(kind[0] == 73 && kind[1] == 72 && kind[2] == 68 && kind[3] == 82); }
                if kind == idat() { assert(kind[0] == 73 && kind[1] == 68 && kind[2] == 65 && kind[3] == 84); }
                if kind == iend() { assert(kind[0] == 73 && kind[1] == 69 && kind[2] == 78 && kind[3] == 68); }
                if kind == plte() { assert(kind[0] == 80 && kind[1] == 76 && kind[2] == 84 && kind[3] == 69); }
            }
            if 65 <= k0 && k0 <= 90 {
                return Err(PngError::UnsupportedCritical(k0, k1, k2, k3));
            }
        }
        offset = next;
    }
    dims_result(dims, saw_data, saw_end)
}

fn dims_result(dims: Option<(u32, u32)>, saw_data: bool, saw_end: bool) -> (r: Result<(u32, u32), PngError>)
    ensures
        r == scan_finish(dims, saw_data, saw_end),
{
    if !saw_data || !saw_end {
        return Err(PngError::MissingChunks);
    }
    match dims {
        Some(d) => Ok(d),
        None => Err(PngError::MissingIhdr),
    }
}

/// Validates a PNG and returns its dimensions, or a message explaining the rejection.
pub fn inspect(data: &[u8]) -> (r: Result<(u32, u32), String>)
    ensures
        match (r, png_check(data@)) {
            (Ok(d), Ok(e)) => d == e,
            (Err(m), Err(e)) => m@ == png_error_text(e),
            _ => false,
        },
{
    match check_png(data) {
        Ok(d) => Ok(d),
        Err(e) => Err(e.message()),
    }
}


/// What the validator reads from a chunk written by `write_chunk` at `o`.
proof fn lemma_chunk_at(d: Seq<u8>, o: int, kind: Seq<u8>, data: Seq<u8>)
    requires
        kind.len() == 4,
        data.len() <= u32::MAX,
        0 <= o,
        o + 12 + data.len() <= d.len(),
        d.subrange(o, o + 12 + data.len()) == chunk_bytes(kind, data),
    ensures
        read_be32(d, o) as int == data.len(),
        d.subrange(o + 4, o + 8 + data.len()) == kind + data,
        d.subrange(o + 4, o + 8) == kind,
        d.subrange(o + 8, o + 8 + data.len()) == data,
        read_be32(d, o + 8 + data.len()) == crc32_of(kind + data),
{
    let c = chunk_bytes(kind, data);
    let n = data.len() as int;
    lemma_be32_roundtrip(data.len() as u32);
    lemma_be32_roundtrip(crc32_of(kind + data));
    assert(c.len() == 12 + n);
    assert forall|i: int| 0 <= i < 12 + n implies d[o + i] == c[i] by {
        assert(d.subrange(o, o + 12 + n)[i] == d[o + i]);
    }
    assert(d[o] == c[0] && d[o + 1] == c[1] && d[o + 2] == c[2] && d[o + 3] == c[3]);
    assert(c.take(4) == be32(data.len() as u32));
    assert(read_be32(d, o) == read_be32(be32(data.len() as u32), 0));
    assert(d.subrange(o + 4, o + 8 + n) =~= kind + data) by {
        assert forall|i: int| 0 <= i < 4 + n implies d.subrange(o + 4, o + 8 + n)[i] == (kind + data)[i] by {
            assert(c[4 + i] == (kind + data)[i]);
        }
    }
    assert(d.subrange(o + 4, o + 8) =~= kind) by {
        assert forall|i: int| 0 <= i < 4 implies d.subrange(o + 4, o + 8)[i] == kind[i] by {
            assert(c[4 + i] == kind[i]);
        }
    }
    assert(d.subrange(o + 8, o + 8 + n) =~= data) by {
        assert forall|i: int| 0 <= i < n implies d.subrange(o + 8, o + 8 + n)[i] == data[i] by {
            assert(c[8 + i] == data[i]);
        }
    }
    let e = be32(crc32_of(kind + data));
    assert(c[8 + n] == e[0] && c[9 + n] == e[1] && c[10 + n] == e[2] && c[11 + n] == e[3]);
    assert(read_be32(d, o + 8 + n) == read_be32(e, 0));
}

/// Every preview that `generate` writes passes validation with its own size.
#[verifier::spinoff_prover]
#[verifier::rlimit(40)]
pub proof fn lemma_generated_png_is_valid(width: u32, height: u32)
    requires
        width > 0,
        height > 0,
        idat_len(raw_len(width, height)) <= u32::MAX,
    ensures
        png_check(png_bytes(width, height)) == Ok::<(u32, u32), PngError>((width, height)),
{
    let d = png_bytes(width, height);
    let hd = header_data(width, height);
    let raw = raw_image(width as nat, height as nat);
    let z = zlib_stored(raw);
    lemma_raw_len(width as nat, height as nat);
    lemma_stored_len(raw);
    let c1 = chunk_bytes(ihdr(), hd);
    let c2 = chunk_bytes(idat(), z);
    let c3 = chunk_bytes(iend(), Seq::empty());
    assert(hd.len() == 13);
    assert(z.len() <= u32::MAX);
    let o2: int = 33int;
    let o3: int = o2 + 12 + z.len();
    assert(d == signature() + c1 + c2 + c3);
    assert(d.len() == o3 + 12);
    assert(d.take(8) =~= signature());
    assert(d.subrange(8, o2) =~= c1);
    assert(d.subrange(o2, o3) =~= c2);
    assert(d.subrange(o3, o3 + 12) =~= c3);
    lemma_chunk_at(d, 8, ihdr(), hd);
    lemma_chunk_at(d, o2, idat(), z);
    lemma_chunk_at(d, o3 as int, iend(), Seq::empty());
    lemma_be32_roundtrip(width);
    lemma_be32_roundtrip(height);
    assert(read_be32(hd, 0) == width);
    assert(read_be32(hd, 4) == height) by {
        assert(hd.subrange(4, 8) == be32(height));
        assert(hd[4] == be32(height)[0] && hd[5] == be32(height)[1] && hd[6] == be32(height)[2]
            && hd[7] == be32(height)[3]);
    }
    assert(header_supported(hd));
    assert(idat() != ihdr()) by {
        assert(idat()[1] != ihdr()[1]);
    }
    assert(iend() != ihdr()) by {
        assert(iend()[1] != ihdr()[1]);
    }
    assert(iend() != idat()) by {
        assert(iend()[1] != idat()[1]);
    }
    assert(scan_chunks(d, o3 as int, Some((width, height)), true, false) == scan_chunks(
        d,
        d.len() as int,
        Some((width, height)),
        true,
        true,
    ));
    assert(scan_chunks(d, o2, Some((width, height)), false, false) == scan_chunks(
        d,
        o3 as int,
        Some((width, height)),
        true,
        false,
    ));
    assert(scan_chunks(d, 8, None, false, false) == scan_chunks(
        d,
        o2,
        Some((width, height)),
        false,
        false,
    ));
}


#[verifier::spinoff_prover]
#[verifier::rlimit(40)]
proof fn lemma_generated_png_refuses_extra(width: u32, height: u32, extra: Seq<u8>)
    requires
        width > 0,
        height > 0,
        idat_len(raw_len(width, height)) <= u32::MAX,
        extra.len() > 0,
    ensures
        png_check(png_bytes(width, height) + extra) is Err,
{
    let d = png_bytes(width, height);
    let hd = header_data(width, height);
    let raw = raw_image(width as nat, height as nat);
    let z = zlib_stored(raw);
    lemma_raw_len(width as nat, height as nat);
    lemma_stored_len(raw);
    let c1 = chunk_bytes(ihdr(), hd);
    let c2 = chunk_bytes(idat(), z);
    let c3 = chunk_bytes(iend(), Seq::empty());
    let dims = Some((width, height));
    assert(hd.len() == 13);
    assert(z.len() <= u32::MAX);
    let o2: int = 33int;
    let o3: int = o2 + 12 + z.len();
    assert(d == signature() + c1 + c2 + c3);
    assert(d.len() == o3 + 12);
    lemma_be32_roundtrip(width);
    lemma_be32_roundtrip(height);
    assert(read_be32(hd, 0) == width);
    assert(read_be32(hd, 4) == height) by {
        assert(hd.subrange(4, 8) == be32(height));
        assert(hd[4] == be32(height)[0] && hd[5] == be32(height)[1] && hd[6] == be32(height)[2]
            && hd[7] == be32(height)[3]);
    }
    assert(header_supported(hd));
    assert(idat() != ihdr()) by {
        assert(idat()[1] != ihdr()[1]);
    }
    assert(iend() != ihdr()) by {
        assert(iend()[1] != ihdr()[1]);
    }
    assert(iend() != idat()) by {
        assert(iend()[1] != idat()[1]);
    }
    // The same chunks, followed by more bytes: IEND no longer ends the data.
    let x = d + extra;
    assert(x.take(8) =~= signature());
    assert(x.subrange(8, o2) =~= c1);
    assert(x.subrange(o2, o3) =~= c2);
    assert(x.subrange(o3, o3 + 12) =~= c3);
    lemma_chunk_at(x, 8, ihdr(), hd);
    lemma_chunk_at(x, o2, idat(), z);
    lemma_chunk_at(x, o3, iend(), Seq::empty());
    assert(scan_chunks(x, o3, dims, true, false) == Err::<(u32, u32), PngError>(PngError::InvalidIend));
    assert(scan_chunks(x, o2, dims, false, false) == scan_chunks(x, o3, dims, true, false));
    assert(scan_chunks(x, 8, None, false, false) == scan_chunks(x, o2, dims, false, false));
}

#[verifier::spinoff_prover]
#[verifier::rlimit(40)]
proof fn lemma_generated_png_refuses_prefix(width: u32, height: u32, k: int)
    requires
        width > 0,
        height > 0,
        idat_len(raw_len(width, height)) <= u32::MAX,
        0 <= k < png_bytes(width, height).len(),
    ensures
        png_check(png_bytes(width, height).take(k)) is Err,
{
    let d = png_bytes(width, height);
    let hd = header_data(width, height);
    let raw = raw_image(width as nat, height as nat);
    let z = zlib_stored(raw);
    lemma_raw_len(width as nat, height as nat);
    lemma_stored_len(raw);
    let c1 = chunk_bytes(ihdr(), hd);
    let c2 = chunk_bytes(idat(), z);
    let c3 = chunk_bytes(iend(), Seq::empty());
    let dims = Some((width, height));
    assert(hd.len() == 13);
    assert(z.len() <= u32::MAX);
    let o2: int = 33int;
    let o3: int = o2 + 12 + z.len();
    assert(d == signature() + c1 + c2 + c3);
    assert(d.len() == o3 + 12);
    lemma_be32_roundtrip(width);
    lemma_be32_roundtrip(height);
    assert(read_be32(hd, 0) == width);
    assert(read_be32(hd, 4) == height) by {
        assert(hd.subrange(4, 8) == be32(height));
        assert(hd[4] == be32(height)[0] && hd[5] == be32(height)[1] && hd[6] == be32(height)[2]
            && hd[7] == be32(height)[3]);
    }
    assert(header_supported(hd));
    assert(idat() != ihdr()) by {
        assert(idat()[1] != ihdr()[1]);
    }
    assert(iend() != ihdr()) by {
        assert(iend()[1] != ihdr()[1]);
    }
    assert(iend() != idat()) by {
        assert(iend()[1] != idat()[1]);
    }
    // A proper prefix stops inside the signature or inside some chunk.
    let t = d.take(k);
    if k >= 8 {
        assert(t.take(8) =~= d.take(8));
        assert(d.take(8) =~= signature());
        if k >= 16 {
            assert(d.subrange(8, o2) =~= c1);
            lemma_chunk_at(d, 8, ihdr(), hd);
            assert(read_be32(t, 8) == read_be32(d, 8));
            if k >= o2 {
                assert(t.subrange(8, o2) =~= c1);
                lemma_chunk_at(t, 8, ihdr(), hd);
                assert(scan_chunks(t, 8, None, false, false) == scan_chunks(t, o2, dims, false, false));
                if k >= o2 + 8 {
                    assert(d.subrange(o2, o3) =~= c2);
                    lemma_chunk_at(d, o2, idat(), z);
                    assert(read_be32(t, o2) == read_be32(d, o2));
                    if k >= o3 {
                        assert(t.subrange(o2, o3) =~= c2);
                        lemma_chunk_at(t, o2, idat(), z);
                        assert(scan_chunks(t, o2, dims, false, false) == scan_chunks(t, o3, dims, true, false));
                        if k >= o3 + 8 {
                            assert(d.subrange(o3, o3 + 12) =~= c3);
                            lemma_chunk_at(d, o3, iend(), Seq::empty());
                            assert(read_be32(t, o3) == read_be32(d, o3));
                            assert(scan_chunks(t, o3, dims, true, false) is Err);
                        }
                    }
                }
            }
        }
    }
}

/// A generated PNG cut short, or followed by further bytes, is refused: the
/// IEND chunk must be present and must end exactly where the data ends.
pub proof fn lemma_generated_png_exact_length(width: u32, height: u32, k: int, extra: Seq<u8>)
    requires
        width > 0,
        height > 0,
        idat_len(raw_len(width, height)) <= u32::MAX,
        0 <= k < png_bytes(width, height).len(),
        extra.len() > 0,
    ensures
        png_check(png_bytes(width, height).take(k)) is Err,
        png_check(png_bytes(width, height) + extra) is Err,
{
    lemma_generated_png_refuses_prefix(width, height, k);
    lemma_generated_png_refuses_extra(width, height, extra);
}

} // verus!
