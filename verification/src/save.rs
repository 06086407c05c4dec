use bincode::error::{DecodeError, EncodeError};
use vstd::prelude::*;
use vstd::slice::{slice_subrange, slice_to_vec};
use vstd::string::*;
use crate::text::{ends_with, str_ends_with};

verus! {

#[verifier::external_type_specification]
#[verifier::external_body]
pub struct ExBincodeDecodeError(DecodeError);

#[verifier::external_type_specification]
#[verifier::external_body]
pub struct ExBincodeEncodeError(EncodeError);

#[verifier::external_type_specification]
#[verifier::external_body]
pub struct ExIoError(std::io::Error);

/// The byte an encoded `bool` takes in bincode's standard configuration.
pub open spec fn bool_byte(b: bool) -> u8 {
    if b {
        1u8
    } else {
        0u8
    }
}

/// Calls `bincode::encode_to_vec` with `bincode::config::standard()` on the
/// three header fields. The claim: byte arrays are written as they are, in
/// order, and the flag as one byte, 1 for true and 0 for false; writing to a
/// vector never fails.
#[verifier::external_body]
fn bincode_encode_header(fields: ([u8; 4], [u8; 4], bool)) -> (r: Result<Vec<u8>, EncodeError>)
    ensures
        r is Ok,
        r matches Ok(v) ==> v@ == fields.0@ + fields.1@ + seq![bool_byte(fields.2)],
{
    bincode::encode_to_vec(fields, bincode::config::standard())
}

/// Calls `bincode::decode_from_slice` with `bincode::config::standard()`,
/// decoding the three header fields. The claim: it succeeds exactly when at
/// least nine bytes are there and the ninth is 0 or 1; the arrays are the
/// first two groups of four bytes, the flag is whether the ninth byte is 1,
/// and nine bytes are consumed.
#[verifier::external_body]
fn bincode_decode_header(src: &[u8]) -> (r: Result<(([u8; 4], [u8; 4], bool), usize), DecodeError>)
    ensures
        r is Ok <==> (src@.len() >= 9 && src@[8] <= 1),
        r matches Ok((f, n)) ==> n == 9 && f.0@ == src@.subrange(0, 4) && f.1@ == src@.subrange(
            4,
            8,
        ) && f.2 == (src@[8] == 1),
{
    bincode::decode_from_slice(src, bincode::config::standard())
}

/// The zstd frame that `zstd::encode_all` produces for `data` at `level`.
pub uninterp spec fn zstd_frame(data: Seq<u8>, level: i32) -> Seq<u8>;

/// `s` cut to its first `n` bytes, or all of it when it is shorter.
pub open spec fn take_upto(s: Seq<u8>, n: nat) -> Seq<u8> {
    if n <= s.len() {
        s.take(n as int)
    } else {
        s
    }
}

/// What reading at most `limit` bytes from a zstd decoder over `stream`
/// gives: `None` where decoding fails before that many bytes are read.
pub uninterp spec fn zstd_prefix_decoded(stream: Seq<u8>, limit: nat) -> Option<Seq<u8>>;

/// Calls `zstd::encode_all` on an in-memory buffer at a standard level. Its
/// output is the single zstd frame for the data at that level; a decoder
/// reading it gives back the data, so reading at most `n` bytes gives the
/// first `n` bytes of the data, or all of it. Reading from a slice and
/// writing to a vector cannot fail, and the encoder's context fails only
/// when memory runs out, which is left aside: it always succeeds.
#[verifier::external_body]
fn zstd_compress(data: &[u8], level: i32) -> (r: Result<Vec<u8>, std::io::Error>)
    requires
        1 <= level <= 19,
    ensures
        r is Ok,
        r matches Ok(v) ==> v@ == zstd_frame(data@, level),
        r matches Ok(v) ==> forall|n: nat|
            #[trigger] zstd_prefix_decoded(v@, n) == Some(take_upto(data@, n)),
{
    zstd::encode_all(data, level)
}

/// Reads at most `limit` bytes from a `zstd::stream::read::Decoder` over an
/// in-memory buffer, through `Read::take` and `Read::read_to_end`; the
/// decoder reads no more of the buffer than those bytes need. It succeeds
/// exactly when the named reading does, and then gives back the bytes read,
/// at most `limit` of them.
#[verifier::external_body]
fn zstd_decompress_prefix(stream: &[u8], limit: u64) -> (r: Result<Vec<u8>, std::io::Error>)
    ensures
        r is Ok <==> zstd_prefix_decoded(stream@, limit as nat) is Some,
        r matches Ok(v) ==> v@ == zstd_prefix_decoded(stream@, limit as nat)->0 && v@.len()
            <= limit,
{
    let decoder = zstd::stream::read::Decoder::new(stream)?;
    let mut out = Vec::new();
    std::io::Read::read_to_end(&mut std::io::Read::take(decoder, limit), &mut out)?;
    Ok(out)
}

/// The four bytes every save file starts with: `fool`.
pub open spec fn magic_bytes() -> Seq<u8> {
    seq![102u8, 111u8, 111u8, 108u8]
}

/// The format version save files are written in.
pub open spec fn version_bytes() -> Seq<u8> {
    seq![0u8, 0u8, 0u8, 1u8]
}

/// The compression level save payloads are compressed at.
pub const SAVE_COMPRESSION_LEVEL: i32 = 10;

/// Why a save file could not be written or read.
#[derive(Debug, Clone, Copy, PartialEq, Eq, Structural)]
pub enum SaveError {
    /// The header could not be encoded.
    HeaderEncode,
    /// The file is too short for a header, or its flag byte is not 0 or 1.
    HeaderDecode,
    /// The header does not carry the save-file magic and version.
    NotASave,
    /// Compressing the payload failed, which happens only when memory runs
    /// out.
    Compress,
    /// The compressed payload could not be decompressed.
    Decompress,
    /// The payload does not start with a document length of at least five
    /// bytes.
    NotADocument,
}

/// The header at the start of every save file.
#[derive(Debug, Clone, Copy)]
pub struct Header {
    magic: [u8; 4],
    version: [u8; 4],
    compress: bool,
}

/// The nine bytes a header with the given fields is written as.
pub open spec fn header_bytes(magic: Seq<u8>, version: Seq<u8>, compress: bool) -> Seq<u8> {
    magic + version + seq![bool_byte(compress)]
}

impl Header {
    /// The magic bytes the header carries.
    pub closed spec fn spec_magic(&self) -> Seq<u8> {
        self.magic@
    }

    /// The version bytes the header carries.
    pub closed spec fn spec_version(&self) -> Seq<u8> {
        self.version@
    }

    /// Whether the payload after the header is compressed.
    pub closed spec fn spec_compress(&self) -> bool {
        self.compress
    }

    /// The magic and the version are four bytes each.
    pub proof fn field_lengths(&self)
        ensures
            self.spec_magic().len() == 4,
            self.spec_version().len() == 4,
    {
    }

    /// Whether the header is that of a save file this version reads.
    pub open spec fn spec_valid(&self) -> bool {
        self.spec_magic() == magic_bytes() && self.spec_version() == version_bytes()
    }

    /// Whether the payload after the header is compressed.
    pub fn compress(&self) -> (r: bool)
        ensures
            r == self.spec_compress(),
    {
        self.compress
    }

    /// Whether the header carries the save-file magic and the current version.
    pub fn is_vaild(&self) -> (r: bool)
        ensures
            r == self.spec_valid(),
    {
        let r = self.magic[0] == 102 && self.magic[1] == 111 && self.magic[2] == 111
            && self.magic[3] == 108 && self.version[0] == 0 && self.version[1] == 0
            && self.version[2] == 0 && self.version[3] == 1;
        assert(r ==> self.magic@ =~= magic_bytes() && self.version@ =~= version_bytes());
        assert(self.magic@ == magic_bytes() ==> self.magic[3] == 108);
        assert(self.version@ == version_bytes() ==> self.version[3] == 1);
        r
    }

    /// The current header, with the given compression flag.
    pub fn with_compress(compress: bool) -> (r: Self)
        ensures
            r.spec_valid(),
            r.spec_compress() == compress,
    {
        let r = Header { magic: [102u8, 111u8, 111u8, 108u8], version: [0u8, 0u8, 0u8, 1u8], compress };
        assert(r.magic@ =~= magic_bytes());
        assert(r.version@ =~= version_bytes());
        r
    }

    /// The bytes the header is written as.
    pub fn write(&self) -> (r: Result<Vec<u8>, SaveError>)
        ensures
            r is Ok,
            r matches Ok(v) ==> v@ == header_bytes(
                self.spec_magic(),
                self.spec_version(),
                self.spec_compress(),
            ),
    {
        match bincode_encode_header((self.magic, self.version, self.compress)) {
            Ok(v) => Ok(v),
            Err(_) => Err(SaveError::HeaderEncode),
        }
    }

    /// Reads a header from the start of `bytes`; gives back the header and
    /// the number of bytes it took.
    pub fn read(bytes: &[u8]) -> (r: Result<(Header, usize), SaveError>)
        ensures
            r is Ok <==> (bytes@.len() >= 9 && bytes@[8] <= 1),
            r is Err ==> r == Err::<(Header, usize), SaveError>(SaveError::HeaderDecode),
            r matches Ok((h, n)) ==> n == 9 && h.spec_magic() == bytes@.subrange(0, 4)
                && h.spec_version() == bytes@.subrange(4, 8) && h.spec_compress() == (bytes@[8]
                == 1),
    {
        match bincode_decode_header(bytes) {
            Ok(((magic, version, compress), n)) => Ok((Header { magic, version, compress }, n)),
            Err(_) => Err(SaveError::HeaderDecode),
        }
    }
}

/// The bytes of a save file holding `payload`: the current header, then the
/// payload, compressed when `compress` is set.
pub open spec fn save_file_bytes(payload: Seq<u8>, compress: bool) -> Seq<u8> {
    header_bytes(magic_bytes(), version_bytes(), compress) + if compress {
        zstd_frame(payload, SAVE_COMPRESSION_LEVEL)
    } else {
        payload
    }
}

/// The little-endian signed 32-bit number in the first four bytes of `h`.
pub open spec fn le_i32(h: Seq<u8>) -> int {
    let u = h[0] + h[1] * 256 + h[2] * 65536 + h[3] * 16777216;
    if h[3] < 128 {
        u
    } else {
        u - 4294967296
    }
}

/// The first `n` bytes of the payload behind a header, or all of them if
/// there are fewer: decompressed as they are read when `compressed` is set.
pub open spec fn stream_prefix(body: Seq<u8>, compressed: bool, n: nat) -> Option<Seq<u8>> {
    if compressed {
        zstd_prefix_decoded(body, n)
    } else {
        Some(take_upto(body, n))
    }
}

/// What reading one document from the payload behind a header gives, as
/// BSON reads it: the four-byte length first, which must be at least five,
/// then the document up to that length (less where the payload ends).
pub open spec fn read_document(body: Seq<u8>, compressed: bool) -> Result<Seq<u8>, SaveError> {
    match stream_prefix(body, compressed, 4) {
        None => Err(SaveError::Decompress),
        Some(h) => if h.len() < 4 || le_i32(h) < 5 {
            Err(SaveError::NotADocument)
        } else {
            match stream_prefix(body, compressed, le_i32(h) as nat) {
                None => Err(SaveError::Decompress),
                Some(d) => Ok(d),
            }
        },
    }
}

/// Whether `p` is a whole document: it starts with its own length, which
/// is at least five.
pub open spec fn is_document(p: Seq<u8>) -> bool {
    p.len() >= 5 && p[3] < 128 && p[0] + p[1] * 256 + p[2] * 65536 + p[3] * 16777216 == p.len()
}

/// What reading a save file gives: the document behind the header, or why
/// there is none.
pub open spec fn read_save_file(bytes: Seq<u8>) -> Result<Seq<u8>, SaveError> {
    if bytes.len() < 9 || bytes[8] > 1 {
        Err(SaveError::HeaderDecode)
    } else if bytes.subrange(0, 4) != magic_bytes() || bytes.subrange(4, 8) != version_bytes() {
        Err(SaveError::NotASave)
    } else {
        read_document(bytes.subrange(9, bytes.len() as int), bytes[8] == 1)
    }
}

/// A whole document is read back as it is.
pub proof fn document_reads_back(p: Seq<u8>)
    requires
        is_document(p),
    ensures
        read_document(p, false) == Ok::<Seq<u8>, SaveError>(p),
{
    let h = take_upto(p, 4);
    assert(h =~= p.take(4));
    assert(le_i32(h) == p.len());
    assert(take_upto(p, p.len()) =~= p);
}

/// Reading a document from the compressed form of `p` gives what reading it
/// from `p` itself gives, wherever the decoder gives back `p`.
proof fn compressed_reads_as_plain(frame: Seq<u8>, p: Seq<u8>)
    requires
        forall|n: nat| #[trigger] zstd_prefix_decoded(frame, n) == Some(take_upto(p, n)),
    ensures
        read_document(frame, true) == read_document(p, false),
{
    assert(stream_prefix(frame, true, 4) == stream_prefix(p, false, 4));
    match stream_prefix(p, false, 4) {
        Some(h) => {
            if !(h.len() < 4 || le_i32(h) < 5) {
                assert(stream_prefix(frame, true, le_i32(h) as nat) == stream_prefix(
                    p,
                    false,
                    le_i32(h) as nat,
                ));
            }
        },
        None => {},
    }
}

/// A header's nine bytes read back as the fields they were written from.
pub proof fn header_bytes_read_back(magic: Seq<u8>, version: Seq<u8>, compress: bool)
    requires
        magic.len() == 4,
        version.len() == 4,
    ensures
        ({
            let b = header_bytes(magic, version, compress);
            &&& b.len() == 9
            &&& b.subrange(0, 4) == magic
            &&& b.subrange(4, 8) == version
            &&& b[8] <= 1
            &&& (b[8] == 1) == compress
        }),
{
    let b = header_bytes(magic, version, compress);
    assert(b.subrange(0, 4) =~= magic);
    assert(b.subrange(4, 8) =~= version);
}

/// Read after write: the nine bytes a header is written as, followed by
/// anything, read back as that same header, and reading takes exactly
/// those nine bytes.
pub proof fn header_write_read_round_trip(h: Header, tail: Seq<u8>)
    ensures
        ({
            let w = header_bytes(h.spec_magic(), h.spec_version(), h.spec_compress());
            let b = w + tail;
            &&& w.len() == 9
            &&& b.len() >= 9
            &&& b[8] <= 1
            &&& b.subrange(0, 4) == h.spec_magic()
            &&& b.subrange(4, 8) == h.spec_version()
            &&& (b[8] == 1) == h.spec_compress()
        }),
{
    h.field_lengths();
    let w = header_bytes(h.spec_magic(), h.spec_version(), h.spec_compress());
    header_bytes_read_back(h.spec_magic(), h.spec_version(), h.spec_compress());
    let b = w + tail;
    assert(b.subrange(0, 4) =~= w.subrange(0, 4));
    assert(b.subrange(4, 8) =~= w.subrange(4, 8));
    assert(b[8] == w[8]);
}

/// A save file reads back as what reading a document from its payload
/// gives, which is the payload itself when it is a whole document: always
/// when it is not compressed, and when it is, wherever the decoder gives
/// the payload back.
pub proof fn save_file_round_trip(payload: Seq<u8>, compress: bool)
    requires
        compress ==> forall|n: nat|
            #[trigger] zstd_prefix_decoded(zstd_frame(payload, SAVE_COMPRESSION_LEVEL), n) == Some(
                take_upto(payload, n),
            ),
    ensures
        read_save_file(save_file_bytes(payload, compress)) == read_document(payload, false),
        is_document(payload) ==> read_save_file(save_file_bytes(payload, compress)) == Ok::<
            Seq<u8>,
            SaveError,
        >(payload),
{
    let b = save_file_bytes(payload, compress);
    header_bytes_read_back(magic_bytes(), version_bytes(), compress);
    let h = header_bytes(magic_bytes(), version_bytes(), compress);
    assert(b.subrange(0, 4) =~= h.subrange(0, 4));
    assert(b.subrange(4, 8) =~= h.subrange(4, 8));
    assert(b[8] == h[8]);
    if compress {
        assert(b.subrange(9, b.len() as int) =~= zstd_frame(payload, SAVE_COMPRESSION_LEVEL));
        compressed_reads_as_plain(zstd_frame(payload, SAVE_COMPRESSION_LEVEL), payload);
    } else {
        assert(b.subrange(9, b.len() as int) =~= payload);
    }
    if is_document(payload) {
        document_reads_back(payload);
    }
}

/// Frames `payload` as a save file: the current header, then the payload,
/// compressed at level 10 when `compress` is set. It always succeeds, and
/// reading the result back gives what reading a document from the payload
/// gives: the payload again, when it is a whole document.
pub fn encode_save_file(payload: &[u8], compress: bool) -> (r: Result<Vec<u8>, SaveError>)
    ensures
        r is Ok,
        r matches Ok(v) ==> v@ == save_file_bytes(payload@, compress),
        r matches Ok(v) ==> read_save_file(v@) == read_document(payload@, false),
        r matches Ok(v) ==> is_document(payload@) ==> read_save_file(v@) == Ok::<
            Seq<u8>,
            SaveError,
        >(payload@),
{
    let header = Header::with_compress(compress);
    let mut out = match header.write() {
        Ok(v) => v,
        Err(e) => {
            return Err(e);
        },
    };
    let ghost hb = out@;
    let mut body = if compress {
        match zstd_compress(payload, SAVE_COMPRESSION_LEVEL) {
            Ok(v) => v,
            Err(_) => {
                return Err(SaveError::Compress);
            },
        }
    } else {
        slice_to_vec(payload)
    };
    let ghost bb = body@;
    out.append(&mut body);
    proof {
        assert(hb =~= header_bytes(magic_bytes(), version_bytes(), compress));
        assert(out@ =~= save_file_bytes(payload@, compress));
        assert(out@.subrange(0, 4) =~= magic_bytes());
        assert(out@.subrange(4, 8) =~= version_bytes());
        assert(out@[8] == bool_byte(compress));
        assert(out@.subrange(9, out@.len() as int) =~= bb);
        save_file_round_trip(payload@, compress);
    }
    Ok(out)
}

/// The first `n` bytes of `rest`, decompressed as they are read when
/// `compressed` is set.
fn read_prefix(rest: &[u8], compressed: bool, n: u64) -> (r: Result<Vec<u8>, SaveError>)
    ensures
        match (r, stream_prefix(rest@, compressed, n as nat)) {
            (Ok(v), Some(p)) => v@ == p,
            (Err(e), None) => e == SaveError::Decompress,
            _ => false,
        },
{
    if compressed {
        match zstd_decompress_prefix(rest, n) {
            Ok(v) => Ok(v),
            Err(_) => Err(SaveError::Decompress),
        }
    } else {
        let end: usize = if n <= rest.len() as u64 {
            n as usize
        } else {
            rest.len()
        };
        let v = slice_to_vec(slice_subrange(rest, 0, end));
        assert(v@ =~= take_upto(rest@, n as nat));
        Ok(v)
    }
}

/// Reads a save file: checks its header and gives back the document behind
/// it, decompressed as it is read when the header says it is compressed.
/// Nothing after the document is read.
pub fn decode_save_file(bytes: &[u8]) -> (r: Result<Vec<u8>, SaveError>)
    ensures
        match r {
            Ok(v) => read_save_file(bytes@) == Ok::<Seq<u8>, SaveError>(v@),
            Err(e) => read_save_file(bytes@) == Err::<Seq<u8>, SaveError>(e),
        },
{
    let (header, n) = match Header::read(bytes) {
        Ok(hn) => hn,
        Err(e) => {
            return Err(e);
        },
    };
    if !header.is_vaild() {
        return Err(SaveError::NotASave);
    }
    let rest = slice_subrange(bytes, n, bytes.len());
    let compressed = header.compress();
    let head = match read_prefix(rest, compressed, 4) {
        Ok(h) => h,
        Err(e) => {
            return Err(e);
        },
    };
    if head.len() < 4 || head[3] >= 128 {
        return Err(SaveError::NotADocument);
    }
    let len: u64 = head[0] as u64 + head[1] as u64 * 256 + head[2] as u64 * 65536 + head[3] as u64
        * 16777216;
    if len < 5 {
        return Err(SaveError::NotADocument);
    }
    assert(le_i32(head@) == len);
    read_prefix(rest, compressed, len)
}

/// The path `p` resolves to relative to `base`, as `PathBuf::join` does on
/// Unix: an absolute `p` replaces `base`; otherwise a `/` separates the two
/// unless `base` is empty or already ends with one.
pub open spec fn joined_path(base: Seq<char>, p: Seq<char>) -> Seq<char> {
    if p.len() > 0 && p[0] == '/' {
        p
    } else if base.len() > 0 && base.last() != '/' {
        base + seq!['/'] + p
    } else {
        base + p
    }
}

/// Joins `p` onto `base` as `PathBuf::join` does on Unix.
pub fn path_join(base: &str, p: &str) -> (r: String)
    ensures
        r@ == joined_path(base@, p@),
{
    let pl = p.unicode_len();
    if pl > 0 && p.get_char(0) == '/' {
        return String::from_str(p);
    }
    let bl = base.unicode_len();
    let mut out = String::from_str(base);
    if bl > 0 && base.get_char(bl - 1) != '/' {
        crate::text::push_char(&mut out, '/');
    }
    out.append(p);
    out
}

/// The file name a save called `name` is stored under.
pub open spec fn save_file_name(name: Seq<char>) -> Seq<char> {
    name + seq!['.', 's', 'a', 'v', 'e']
}

/// Whether a directory entry called `file_name` is a save file: its
/// extension, as `Path::extension` finds it, is `save`. That is the case
/// when the name ends in `.save` and that dot is not its first character.
pub open spec fn is_save_file(file_name: Seq<char>) -> bool {
    file_name.len() > 5 && ends_with(file_name, seq!['.', 's', 'a', 'v', 'e'])
}

/// Whether a directory entry called `file_name` is a save file.
pub fn is_save_file_name(file_name: &str) -> (r: bool)
    ensures
        r == is_save_file(file_name@),
{
    proof {
        reveal_strlit(".save");
        assert(".save"@ =~= seq!['.', 's', 'a', 'v', 'e']);
    }
    file_name.unicode_len() > 5 && str_ends_with(file_name, ".save")
}

/// What listing does with one save file: a file whose header cannot be read
/// makes the whole listing fail; a file of another format, or whose document
/// cannot be read, is skipped (`None`); otherwise its document is kept.
pub open spec fn listed_payload(bytes: Seq<u8>) -> Result<Option<Seq<u8>>, SaveError> {
    match read_save_file(bytes) {
        Ok(p) => Ok(Some(p)),
        Err(SaveError::HeaderDecode) => Err(SaveError::HeaderDecode),
        Err(_) => Ok(None),
    }
}

/// Keeps save files in one directory.
#[derive(Debug, Clone)]
pub struct SaveManager {
    path: String,
}

impl SaveManager {
    /// The directory the saves are kept in.
    pub closed spec fn spec_path(&self) -> Seq<char> {
        self.path@
    }

    /// A manager for the saves in directory `path`.
    pub fn new(path: String) -> (r: Self)
        ensures
            r.spec_path() == path@,
    {
        SaveManager { path }
    }

    /// The directory the saves are kept in.
    pub fn path(&self) -> (r: &str)
        ensures
            r@ == self.spec_path(),
    {
        self.path.as_str()
    }

    /// The path of the file the save called `name` is stored in.
    pub fn save_path(&self, name: &str) -> (r: String)
        ensures
            r@ == joined_path(self.spec_path(), save_file_name(name@)),
    {
        let mut file = String::from_str(name);
        proof {
            reveal_strlit(".save");
        }
        file.append(".save");
        assert(file@ =~= save_file_name(name@));
        path_join(self.path.as_str(), file.as_str())
    }

    /// The bytes to write for a save holding `payload`.
    pub fn save(&self, payload: &[u8], compress: bool) -> (r: Result<Vec<u8>, SaveError>)
        ensures
            r is Ok,
            r matches Ok(v) ==> v@ == save_file_bytes(payload@, compress),
            r matches Ok(v) ==> read_save_file(v@) == read_document(payload@, false),
            r matches Ok(v) ==> is_document(payload@) ==> read_save_file(v@) == Ok::<
                Seq<u8>,
                SaveError,
            >(payload@),
    {
        encode_save_file(payload, compress)
    }

    /// The payload of a save file read for loading; a file of another
    /// format is refused with `NotASave`.
    pub fn load(&self, bytes: &[u8]) -> (r: Result<Vec<u8>, SaveError>)
        ensures
            match r {
                Ok(v) => read_save_file(bytes@) == Ok::<Seq<u8>, SaveError>(v@),
                Err(e) => read_save_file(bytes@) == Err::<Seq<u8>, SaveError>(e),
            },
    {
        decode_save_file(bytes)
    }

    /// What listing keeps of one save file.
    pub fn list_entry(&self, bytes: &[u8]) -> (r: Result<Option<Vec<u8>>, SaveError>)
        ensures
            match (r, listed_payload(bytes@)) {
                (Ok(Some(v)), Ok(Some(p))) => v@ == p,
                (Ok(None), Ok(None)) => true,
                (Err(e), Err(f)) => e == f,
                _ => false,
            },
    {
        match decode_save_file(bytes) {
            Ok(v) => Ok(Some(v)),
            Err(SaveError::HeaderDecode) => Err(SaveError::HeaderDecode),
            Err(_) => Ok(None),
        }
    }
}

} // verus!
