//! Checks on uploaded files: their names, their extensions, their first
//! bytes and their size, and the names and headers they are served under.

use vstd::prelude::*;
use vstd::string::StringExecFns;
use crate::error::AppError;
use crate::runtime::{new_uuid, uuid_shaped};
use crate::text::{
    chars_of, concat, control_char, decimal, decimal_string, is_control, lowercase, same_text,
    string_of, to_lowercase,
};

verus! {

/// A path segment that names something: neither empty nor `.`.
pub open spec fn named_segment(seg: Seq<char>) -> bool {
    seg.len() > 0 && seg != seq!['.']
}

/// Reading `s` left to right: the last finished segment that names
/// something, and the segment being read.
pub open spec fn scan_path(s: Seq<char>) -> (Option<Seq<char>>, Seq<char>)
    decreases s.len(),
{
    if s.len() == 0 {
        (None, Seq::<char>::empty())
    } else {
        let (last, cur) = scan_path(s.drop_last());
        if s.last() == '/' {
            (if named_segment(cur) { Some(cur) } else { last }, Seq::<char>::empty())
        } else {
            (last, cur.push(s.last()))
        }
    }
}

/// The final component of a `/`-separated path, as std's
/// `Path::file_name` gives it on Unix: the last segment that is neither
/// empty nor `.`, and nothing when there is none or it is `..`.
pub open spec fn file_name(s: Seq<char>) -> Option<Seq<char>> {
    let (last, cur) = scan_path(s);
    let final_seg = if named_segment(cur) {
        Some(cur)
    } else {
        last
    };
    match final_seg {
        Some(seg) => if seg == seq!['.', '.'] {
            None
        } else {
            Some(seg)
        },
        None => None,
    }
}

/// `s` without its control characters.
pub open spec fn without_controls(s: Seq<char>) -> Seq<char>
    decreases s.len(),
{
    if s.len() == 0 {
        s
    } else if is_control(s.last()) {
        without_controls(s.drop_last())
    } else {
        without_controls(s.drop_last()).push(s.last())
    }
}

/// The name an uploaded file is stored and listed under: the final path
/// component of what the client sent (or `unknown`), without control
/// characters, and `unknown` when that leaves nothing, `.` or `..`.
pub open spec fn sanitized(name: Seq<char>) -> Seq<char> {
    let base = match file_name(name) {
        Some(b) => b,
        None => "unknown"@,
    };
    let cleaned = without_controls(base);
    if cleaned.len() == 0 || cleaned == seq!['.'] || cleaned == seq!['.', '.'] {
        "unknown"@
    } else {
        cleaned
    }
}

/// Whether `seg` names something.
fn named(seg: &Vec<char>) -> (b: bool)
    ensures
        b == named_segment(seg@),
{
    if seg.len() == 0 {
        return false;
    }
    if seg.len() == 1 && seg[0] == '.' {
        assert(seg@ =~= seq!['.']);
        return false;
    }
    assert(seg@ != seq!['.']) by {
        if seg@.len() == 1 {
            assert(seg@[0] != seq!['.'][0]);
        }
    }
    true
}

/// The final component of a path, as `file_name` says.
pub fn path_file_name(name: &str) -> (r: Option<Vec<char>>)
    ensures
        match r {
            Some(v) => file_name(name@) == Some(v@),
            None => file_name(name@) is None,
        },
{
    let cs = chars_of(name);
    let n = cs.len();
    let mut last: Option<Vec<char>> = None;
    let mut cur: Vec<char> = Vec::new();
    for i in 0..n
        invariant
            n == cs@.len(),
            cs@ == name@,
            scan_path(cs@.take(i as int)).1 == cur@,
            match last {
                Some(v) => scan_path(cs@.take(i as int)).0 == Some(v@),
                None => scan_path(cs@.take(i as int)).0 is None,
            },
    {
        let c = cs[i];
        assert(cs@.take(i + 1).drop_last() == cs@.take(i as int));
        assert(cs@.take(i + 1).last() == c);
        if c == '/' {
            if named(&cur) {
                last = Some(cur);
            }
            cur = Vec::new();
        } else {
            cur.push(c);
        }
    }
    assert(cs@.take(n as int) == name@);
    let final_seg = if named(&cur) {
        Some(cur)
    } else {
        last
    };
    match final_seg {
        Some(seg) => {
            if seg.len() == 2 && seg[0] == '.' && seg[1] == '.' {
                assert(seg@ =~= seq!['.', '.']);
                None
            } else {
                assert(seg@ != seq!['.', '.']) by {
                    if seg@.len() == 2 {
                        assert(seg@[0] != '.' || seg@[1] != '.');
                        if seg@ == seq!['.', '.'] {
                            assert(seg@[0] == '.');
                        }
                    }
                }
                Some(seg)
            }
        },
        None => None,
    }
}

/// Makes a client-supplied file name safe to store: see `sanitized`.
pub fn sanitize_filename(name: &str) -> (r: String)
    ensures
        r@ == sanitized(name@),
{
    let base: Vec<char> = match path_file_name(name) {
        Some(b) => b,
        None => {
            let u = String::from_str("unknown");
            chars_of(u.as_str())
        },
    };
    let mut cleaned: Vec<char> = Vec::new();
    let n = base.len();
    for i in 0..n
        invariant
            n == base@.len(),
            cleaned@ == without_controls(base@.take(i as int)),
    {
        assert(base@.take(i + 1).drop_last() == base@.take(i as int));
        if !control_char(base[i]) {
            cleaned.push(base[i]);
        }
    }
    assert(base@.take(n as int) == base@);
    if cleaned.len() == 0 || (cleaned.len() == 1 && cleaned[0] == '.') || (cleaned.len() == 2
        && cleaned[0] == '.' && cleaned[1] == '.') {
        proof {
            if cleaned@.len() == 1 {
                assert(cleaned@ =~= seq!['.']);
            }
            if cleaned@.len() == 2 {
                assert(cleaned@ =~= seq!['.', '.']);
            }
        }
        String::from_str("unknown")
    } else {
        proof {
            if cleaned@ == seq!['.'] {
                assert(cleaned@[0] == '.');
            }
            if cleaned@ == seq!['.', '.'] {
                assert(cleaned@[0] == '.' && cleaned@[1] == '.');
            }
        }
        string_of(cleaned.as_slice())
    }
}

/// What follows the last `.` of `s` (all of `s` when it has none), as
/// std's `s.rsplit('.').next()` gives it.
pub open spec fn after_last_dot(s: Seq<char>) -> Seq<char>
    decreases s.len(),
{
    if s.len() == 0 {
        s
    } else if s.last() == '.' {
        Seq::<char>::empty()
    } else {
        after_last_dot(s.drop_last()).push(s.last())
    }
}

/// The extension an upload is judged by: what follows the last `.` of its
/// stored name, lowercased.
pub open spec fn extension_of(filename: Seq<char>) -> Seq<char> {
    lowercase(after_last_dot(filename))
}

/// The file types the server accepts: video containers and subtitles.
pub open spec fn allowed_extension(ext: Seq<char>) -> bool {
    ||| ext == "mp4"@
    ||| ext == "mkv"@
    ||| ext == "avi"@
    ||| ext == "mov"@
    ||| ext == "wmv"@
    ||| ext == "flv"@
    ||| ext == "webm"@
    ||| text_extension(ext)
}

/// The subtitle types, which are plain text and have no magic bytes.
pub open spec fn text_extension(ext: Seq<char>) -> bool {
    ext == "srt"@ || ext == "ass"@ || ext == "ssa"@ || ext == "vtt"@
}

/// Whether the first bytes of an upload fit its extension: at least twelve
/// bytes that open like an MP4/MOV (`ftyp` at offset 4), RIFF (AVI),
/// Matroska/WebM, FLV or ASF/WMV file; or a subtitle file, whatever it
/// holds.
pub open spec fn media_magic(data: Seq<u8>, ext: Seq<char>) -> bool {
    if data.len() < 12 {
        text_extension(ext)
    } else {
        ||| data.subrange(4, 8) == seq![0x66u8, 0x74u8, 0x79u8, 0x70u8]
        ||| data.subrange(0, 4) == seq![0x52u8, 0x49u8, 0x46u8, 0x46u8]
        ||| data.subrange(0, 4) == seq![0x1Au8, 0x45u8, 0xDFu8, 0xA3u8]
        ||| data.subrange(0, 3) == seq![0x46u8, 0x4Cu8, 0x56u8]
        ||| data.subrange(0, 4) == seq![0x30u8, 0x26u8, 0xB2u8, 0x75u8]
        ||| text_extension(ext)
    }
}

/// Any upload of at least twelve bytes that carries `ftyp` at offset 4
/// (an MP4 or QuickTime file) passes the magic check, whatever its
/// extension.
pub proof fn law_ftyp_uploads_pass_for_every_extension(data: Seq<u8>, ext: Seq<char>)
    requires
        data.len() >= 12,
        data[4] == 0x66u8,
        data[5] == 0x74u8,
        data[6] == 0x79u8,
        data[7] == 0x70u8,
    ensures
        media_magic(data, ext),
{
    assert(data.subrange(4, 8) =~= seq![0x66u8, 0x74u8, 0x79u8, 0x70u8]);
}

/// Any upload of at least twelve bytes that opens like a RIFF (AVI),
/// Matroska/WebM, FLV or ASF/WMV file passes the magic check, whatever its
/// extension; and a subtitle passes whatever its bytes.
pub proof fn law_container_uploads_pass_for_every_extension(data: Seq<u8>, ext: Seq<char>)
    ensures
        data.len() >= 12 && data[0] == 0x52u8 && data[1] == 0x49u8 && data[2] == 0x46u8 && data[3]
            == 0x46u8 ==> media_magic(data, ext),
        data.len() >= 12 && data[0] == 0x1Au8 && data[1] == 0x45u8 && data[2] == 0xDFu8 && data[3]
            == 0xA3u8 ==> media_magic(data, ext),
        data.len() >= 12 && data[0] == 0x46u8 && data[1] == 0x4Cu8 && data[2] == 0x56u8
            ==> media_magic(data, ext),
        data.len() >= 12 && data[0] == 0x30u8 && data[1] == 0x26u8 && data[2] == 0xB2u8 && data[3]
            == 0x75u8 ==> media_magic(data, ext),
        (ext == "srt"@ || ext == "ass"@ || ext == "ssa"@ || ext == "vtt"@) ==> media_magic(data, ext),
{
    if data.len() >= 12 {
        assert(data[0] == 0x52u8 && data[1] == 0x49u8 && data[2] == 0x46u8 && data[3] == 0x46u8
            ==> data.subrange(0, 4) =~= seq![0x52u8, 0x49u8, 0x46u8, 0x46u8]);
        assert(data[0] == 0x1Au8 && data[1] == 0x45u8 && data[2] == 0xDFu8 && data[3] == 0xA3u8
            ==> data.subrange(0, 4) =~= seq![0x1Au8, 0x45u8, 0xDFu8, 0xA3u8]);
        assert(data[0] == 0x46u8 && data[1] == 0x4Cu8 && data[2] == 0x56u8 ==> data.subrange(0, 3)
            =~= seq![0x46u8, 0x4Cu8, 0x56u8]);
        assert(data[0] == 0x30u8 && data[1] == 0x26u8 && data[2] == 0xB2u8 && data[3] == 0x75u8
            ==> data.subrange(0, 4) =~= seq![0x30u8, 0x26u8, 0xB2u8, 0x75u8]);
    }
}

/// The extension of a stored file name, as `extension_of` says.
pub fn upload_extension(filename: &str) -> (ext: String)
    ensures
        ext@ == extension_of(filename@),
{
    let cs = chars_of(filename);
    let n = cs.len();
    let mut seg: Vec<char> = Vec::new();
    for i in 0..n
        invariant
            n == cs@.len(),
            cs@ == filename@,
            seg@ == after_last_dot(cs@.take(i as int)),
    {
        assert(cs@.take(i + 1).drop_last() == cs@.take(i as int));
        if cs[i] == '.' {
            seg = Vec::new();
        } else {
            seg.push(cs[i]);
        }
    }
    assert(cs@.take(n as int) == filename@);
    let raw = string_of(seg.as_slice());
    to_lowercase(raw.as_str())
}

/// Whether the server accepts files of this (lowercased) extension.
pub fn is_allowed_extension(ext: &str) -> (b: bool)
    ensures
        b == allowed_extension(ext@),
{
    same_text(ext, "mp4") || same_text(ext, "mkv") || same_text(ext, "avi") || same_text(
        ext,
        "mov",
    ) || same_text(ext, "wmv") || same_text(ext, "flv") || same_text(ext, "webm")
        || is_text_extension(ext)
}

/// Whether this is a subtitle extension.
pub fn is_text_extension(ext: &str) -> (b: bool)
    ensures
        b == text_extension(ext@),
{
    same_text(ext, "srt") || same_text(ext, "ass") || same_text(ext, "ssa") || same_text(
        ext,
        "vtt",
    )
}

/// Magic-byte check of an upload's first bytes, as `media_magic` says.
pub fn is_valid_media_magic(data: &[u8], ext: &str) -> (b: bool)
    ensures
        b == media_magic(data@, ext@),
{
    if data.len() < 12 {
        return is_text_extension(ext);
    }
    if data[4] == 0x66 && data[5] == 0x74 && data[6] == 0x79 && data[7] == 0x70 {
        assert(data@.subrange(4, 8) =~= seq![0x66u8, 0x74u8, 0x79u8, 0x70u8]);
        return true;
    }
    if data[0] == 0x52 && data[1] == 0x49 && data[2] == 0x46 && data[3] == 0x46 {
        assert(data@.subrange(0, 4) =~= seq![0x52u8, 0x49u8, 0x46u8, 0x46u8]);
        return true;
    }
    if data[0] == 0x1A && data[1] == 0x45 && data[2] == 0xDF && data[3] == 0xA3 {
        assert(data@.subrange(0, 4) =~= seq![0x1Au8, 0x45u8, 0xDFu8, 0xA3u8]);
        return true;
    }
    if data[0] == 0x46 && data[1] == 0x4C && data[2] == 0x56 {
        assert(data@.subrange(0, 3) =~= seq![0x46u8, 0x4Cu8, 0x56u8]);
        return true;
    }
    if data[0] == 0x30 && data[1] == 0x26 && data[2] == 0xB2 && data[3] == 0x75 {
        assert(data@.subrange(0, 4) =~= seq![0x30u8, 0x26u8, 0xB2u8, 0x75u8]);
        return true;
    }
    proof {
        if data@.subrange(4, 8) == seq![0x66u8, 0x74u8, 0x79u8, 0x70u8] {
            assert(data@.subrange(4, 8)[0] == data@[4]);
            assert(data@.subrange(4, 8)[1] == data@[5]);
            assert(data@.subrange(4, 8)[2] == data@[6]);
            assert(data@.subrange(4, 8)[3] == data@[7]);
        }
        if data@.subrange(0, 4) == seq![0x52u8, 0x49u8, 0x46u8, 0x46u8] || data@.subrange(0, 4)
            == seq![0x1Au8, 0x45u8, 0xDFu8, 0xA3u8] || data@.subrange(0, 4) == seq![
            0x30u8,
            0x26u8,
            0xB2u8,
            0x75u8,
        ] {
            assert(data@.subrange(0, 4)[0] == data@[0]);
            assert(data@.subrange(0, 4)[1] == data@[1]);
            assert(data@.subrange(0, 4)[2] == data@[2]);
            assert(data@.subrange(0, 4)[3] == data@[3]);
        }
        if data@.subrange(0, 3) == seq![0x46u8, 0x4Cu8, 0x56u8] {
            assert(data@.subrange(0, 3)[0] == data@[0]);
            assert(data@.subrange(0, 3)[1] == data@[1]);
            assert(data@.subrange(0, 3)[2] == data@[2]);
        }
    }
    is_text_extension(ext)
}

/// A file name accepted for upload, and the extension it was judged by.
pub struct UploadName {
    pub filename: String,
    pub ext: String,
}

/// The text of the error that refuses an extension.
pub open spec fn refused_type_text(ext: Seq<char>) -> Seq<char> {
    "File type '"@ + ext + "' not allowed"@
}

/// Sanitizes the name a client sent and checks its extension: the name
/// and extension when the type is allowed, `BadRequest` naming the
/// extension when it is not.
pub fn accept_upload_name(raw_filename: &str) -> (r: Result<UploadName, AppError>)
    ensures
        match r {
            Ok(u) => {
                &&& u.filename@ == sanitized(raw_filename@)
                &&& u.ext@ == extension_of(sanitized(raw_filename@))
                &&& allowed_extension(u.ext@)
            },
            Err(e) => {
                &&& !allowed_extension(extension_of(sanitized(raw_filename@)))
                &&& e matches AppError::BadRequest(m) && m@ == refused_type_text(
                    extension_of(sanitized(raw_filename@)),
                )
            },
        },
{
    let filename = sanitize_filename(raw_filename);
    let ext = upload_extension(filename.as_str());
    if !is_allowed_extension(ext.as_str()) {
        let head = concat("File type '", ext.as_str());
        let msg = concat(head.as_str(), "' not allowed");
        return Err(AppError::BadRequest(msg));
    }
    Ok(UploadName { filename, ext })
}

/// The running checks on an upload whose bytes arrive in chunks: the size
/// so far against the limit, and the first bytes against the extension.
pub struct UploadScan {
    pub ext: String,
    pub max_file_size: u64,
    pub file_size: u64,
    pub first_chunk: Vec<u8>,
    pub magic_checked: bool,
}

/// A scan as plain values: extension, size limit, bytes counted, the first
/// bytes collected for the magic check, and whether it was made.
pub struct ScanView {
    pub ext: Seq<char>,
    pub max: nat,
    pub size: nat,
    pub first: Seq<u8>,
    pub checked: bool,
}

/// Why a scan refuses an upload.
pub enum ScanError {
    TooLarge,
    BadContent,
}

impl View for UploadScan {
    type V = ScanView;

    open spec fn view(&self) -> ScanView {
        ScanView {
            ext: self.ext@,
            max: self.max_file_size as nat,
            size: self.file_size as nat,
            first: self.first_chunk@,
            checked: self.magic_checked,
        }
    }
}

/// One chunk arriving: refused when the bytes so far exceed the limit;
/// otherwise counted, and, until twelve bytes were collected, added to the
/// first bytes, which are checked against the extension as soon as there
/// are twelve or more of them.
pub open spec fn scan_step(v: ScanView, chunk: Seq<u8>) -> Result<ScanView, ScanError> {
    if v.size + chunk.len() > v.max {
        Err(ScanError::TooLarge)
    } else {
        let first = if v.checked {
            v.first
        } else {
            v.first + chunk
        };
        if !v.checked && first.len() >= 12 && !media_magic(first, v.ext) {
            Err(ScanError::BadContent)
        } else {
            Ok(ScanView { size: v.size + chunk.len(), first, checked: v.checked || first.len() >= 12, ..v })
        }
    }
}

/// The end of the upload: the size, unless the first bytes were never
/// checked (fewer than twelve arrived) and do not fit the extension.
pub open spec fn scan_finish(v: ScanView) -> Result<nat, ScanError> {
    if !v.checked && !media_magic(v.first, v.ext) {
        Err(ScanError::BadContent)
    } else {
        Ok(v.size)
    }
}

/// The text of the error that refuses an upload over the size limit.
pub open spec fn too_large_text(max_file_size: u64) -> Seq<char> {
    "File too large. Maximum: "@ + decimal((max_file_size as nat) / 1048576) + "MB"@
}

/// The text of the error that refuses an upload whose bytes do not fit
/// its extension.
pub open spec fn bad_content_text() -> Seq<char> {
    "File content does not match expected media format"@
}

/// The error a scan answers with, as `AppError`.
pub open spec fn scan_error_is(e: ScanError, max_file_size: u64, r: AppError) -> bool {
    match e {
        ScanError::TooLarge => r matches AppError::BadRequest(m) && m@ == too_large_text(
            max_file_size,
        ),
        ScanError::BadContent => r matches AppError::BadRequest(m) && m@ == bad_content_text(),
    }
}

impl UploadScan {
    /// The state of a scan: the size counted is within the limit, and once
    /// the magic bytes are checked they passed and at least twelve bytes
    /// were seen; before that, fewer than twelve were.
    pub open spec fn wf(&self) -> bool {
        &&& self.file_size <= self.max_file_size
        &&& self.magic_checked ==> self.first_chunk@.len() >= 12 && media_magic(
            self.first_chunk@,
            self.ext@,
        )
        &&& !self.magic_checked ==> self.first_chunk@.len() < 12
    }

    /// A scan of an upload of extension `ext` that may hold at most
    /// `max_file_size` bytes, before any byte arrived.
    pub fn new(ext: String, max_file_size: u64) -> (s: Self)
        ensures
            s.wf(),
            s@ == scan_start(ext@, max_file_size),
    {
        let s = UploadScan {
            ext,
            max_file_size,
            file_size: 0,
            first_chunk: Vec::new(),
            magic_checked: false,
        };
        assert(s@.first =~= Seq::<u8>::empty());
        s
    }

    /// Takes the next chunk, as `scan_step` says.
    pub fn feed(&mut self, chunk: &[u8]) -> (r: Result<(), AppError>)
        requires
            old(self).wf(),
        ensures
            match scan_step(old(self)@, chunk@) {
                Ok(v) => r is Ok && final(self)@ == v && final(self).wf(),
                Err(e) => r matches Err(err) && scan_error_is(e, old(self).max_file_size, err),
            },
    {
        let total: u128 = (self.file_size as u128) + (chunk.len() as u128);
        if total > (self.max_file_size as u128) {
            let max_mb = self.max_file_size / (1024 * 1024);
            let digits = decimal_string(max_mb);
            let head = concat("File too large. Maximum: ", digits.as_str());
            let msg = concat(head.as_str(), "MB");
            return Err(AppError::BadRequest(msg));
        }
        self.file_size = total as u64;
        if !self.magic_checked {
            let n = chunk.len();
            for i in 0..n
                invariant
                    n == chunk@.len(),
                    self.first_chunk@ == old(self).first_chunk@ + chunk@.take(i as int),
                    self.ext == old(self).ext,
                    self.max_file_size == old(self).max_file_size,
                    self.file_size == old(self).file_size + chunk@.len(),
                    self.magic_checked == old(self).magic_checked,
            {
                self.first_chunk.push(chunk[i]);
                assert(chunk@.take(i + 1) == chunk@.take(i as int).push(chunk@[i as int]));
            }
            assert(chunk@.take(n as int) == chunk@);
            if self.first_chunk.len() >= 12 {
                if !is_valid_media_magic(self.first_chunk.as_slice(), self.ext.as_str()) {
                    return Err(AppError::BadRequest(String::from_str(
                        "File content does not match expected media format",
                    )));
                }
                self.magic_checked = true;
            }
        }
        Ok(())
    }

    /// Ends the scan once every chunk arrived, as `scan_finish` says.
    pub fn finish(&self) -> (r: Result<u64, AppError>)
        requires
            self.wf(),
        ensures
            match scan_finish(self@) {
                Ok(n) => r matches Ok(m) && m == n,
                Err(e) => r matches Err(err) && scan_error_is(e, self.max_file_size, err),
            },
    {
        if !self.magic_checked && !is_valid_media_magic(self.first_chunk.as_slice(), self.ext.as_str()) {
            return Err(AppError::BadRequest(String::from_str(
                "File content does not match expected media format",
            )));
        }
        Ok(self.file_size)
    }
}

/// A scan before any byte arrived.
pub open spec fn scan_start(ext: Seq<char>, max_file_size: u64) -> ScanView {
    ScanView { ext, max: max_file_size as nat, size: 0, first: Seq::<u8>::empty(), checked: false }
}

/// A scan after the chunks `chunks`, in order, or the first refusal.
pub open spec fn scan_all(v: ScanView, chunks: Seq<Seq<u8>>) -> Result<ScanView, ScanError>
    decreases chunks.len(),
{
    if chunks.len() == 0 {
        Ok(v)
    } else {
        match scan_all(v, chunks.drop_last()) {
            Ok(w) => scan_step(w, chunks.last()),
            Err(e) => Err(e),
        }
    }
}

/// The bytes of the chunks, in order.
pub open spec fn joined_bytes(chunks: Seq<Seq<u8>>) -> Seq<u8>
    decreases chunks.len(),
{
    if chunks.len() == 0 {
        Seq::<u8>::empty()
    } else {
        joined_bytes(chunks.drop_last()) + chunks.last()
    }
}

/// The first twelve bytes (all of them, when there are fewer).
pub open spec fn head12(b: Seq<u8>) -> Seq<u8> {
    if b.len() >= 12 {
        b.take(12)
    } else {
        b
    }
}

/// The magic check looks at no byte past the twelfth.
proof fn lemma_magic_of_head(b: Seq<u8>, ext: Seq<char>)
    ensures
        media_magic(b, ext) == media_magic(head12(b), ext),
{
    if b.len() >= 12 {
        let h = b.take(12);
        assert(h.subrange(4, 8) =~= b.subrange(4, 8));
        assert(h.subrange(0, 4) =~= b.subrange(0, 4));
        assert(h.subrange(0, 3) =~= b.subrange(0, 3));
    }
}

/// What a scan knows after the chunks so far, when none was refused.
proof fn lemma_scan_all(ext: Seq<char>, max_file_size: u64, chunks: Seq<Seq<u8>>)
    ensures
        ({
            let all = joined_bytes(chunks);
            let ok_so_far = all.len() <= max_file_size && (all.len() >= 12 ==> media_magic(
                head12(all),
                ext,
            ));
            &&& scan_all(scan_start(ext, max_file_size), chunks) is Ok <==> ok_so_far
            &&& scan_all(scan_start(ext, max_file_size), chunks) matches Ok(w) ==> {
                &&& w.ext == ext
                &&& w.max == max_file_size
                &&& w.size == all.len()
                &&& w.checked == (all.len() >= 12)
                &&& head12(w.first) == head12(all)
                &&& !w.checked ==> w.first == all
            }
        }),
    decreases chunks.len(),
{
    if chunks.len() > 0 {
        let prev = chunks.drop_last();
        let c = chunks.last();
        lemma_scan_all(ext, max_file_size, prev);
        let before = joined_bytes(prev);
        let all = joined_bytes(chunks);
        assert(all == before + c);
        if before.len() >= 12 {
            assert(head12(all) =~= head12(before));
        }
        match scan_all(scan_start(ext, max_file_size), prev) {
            Ok(w) => {
                if !w.checked {
                    assert(w.first + c == all);
                    if all.len() >= 12 {
                        lemma_magic_of_head(all, ext);
                    }
                } else {
                    assert(head12(w.first) == head12(all));
                }
            },
            Err(_) => {
                assert(before.len() <= all.len());
                if before.len() >= 12 {
                    assert(head12(all) =~= head12(before));
                }
            },
        }
    }
}

/// An upload passes exactly when its total size is within the limit and
/// its first twelve bytes (all of them, when it has fewer) fit its
/// extension; the size it is accepted with is its total size. How the
/// bytes are cut into chunks makes no difference.
pub proof fn law_upload_accepted_exactly_when_valid(
    ext: Seq<char>,
    max_file_size: u64,
    chunks: Seq<Seq<u8>>,
)
    ensures
        (scan_all(scan_start(ext, max_file_size), chunks) matches Ok(w) && scan_finish(w) is Ok)
            <==> (joined_bytes(chunks).len() <= max_file_size && media_magic(
            head12(joined_bytes(chunks)),
            ext,
        )),
        scan_all(scan_start(ext, max_file_size), chunks) matches Ok(w) ==> (scan_finish(w) matches Ok(
            n,
        ) ==> n == joined_bytes(chunks).len()),
{
    lemma_scan_all(ext, max_file_size, chunks);
    let all = joined_bytes(chunks);
    if all.len() < 12 {
        assert(head12(all) == all);
    } else {
        assert(head12(all).len() == 12);
    }
}

/// The name a stored upload gets on disk: its whole id, an underscore,
/// and its sanitized name.
pub open spec fn stored_name(file_id: Seq<char>, filename: Seq<char>) -> Seq<char> {
    file_id + seq!['_'] + filename
}

/// The on-disk name of an upload, as `stored_name` says.
pub fn stored_file_name(file_id: &str, filename: &str) -> (r: String)
    ensures
        r@ == stored_name(file_id@, filename@),
{
    let mut out = String::from_str(file_id);
    crate::text::push_char(&mut out, '_');
    concat(out.as_str(), filename)
}

/// Where an accepted upload goes: its fresh id and its on-disk name.
pub struct StoredUpload {
    pub file_id: String,
    pub save_filename: String,
}

/// Draws a fresh id for an accepted upload and names its file on disk.
pub fn plan_storage(filename: &str) -> (r: StoredUpload)
    ensures
        uuid_shaped(r.file_id@),
        r.save_filename@ == stored_name(r.file_id@, filename@),
{
    let file_id = new_uuid();
    let save_filename = stored_file_name(file_id.as_str(), filename);
    StoredUpload { file_id, save_filename }
}

/// Whether an on-disk name is that of the upload `file_id`: its whole id
/// followed by an underscore, then any name.
pub open spec fn stored_for(entry: Seq<char>, file_id: Seq<char>) -> bool {
    entry.len() > file_id.len() && entry.take(file_id.len() as int + 1) == file_id + seq!['_']
}

/// Whether a directory entry is the stored copy of the upload `file_id`,
/// as `stored_for` says.
pub fn is_stored_file_for(entry_name: &str, file_id: &str) -> (b: bool)
    ensures
        b == stored_for(entry_name@, file_id@),
{
    let e = chars_of(entry_name);
    let f = chars_of(file_id);
    let n = f.len();
    if e.len() <= n {
        return false;
    }
    let ghost want = f@ + seq!['_'];
    for i in 0..n
        invariant
            n == f@.len(),
            e@.len() > n,
            e@ == entry_name@,
            f@ == file_id@,
            want == f@ + seq!['_'],
            forall|j: int| 0 <= j < i ==> e@[j] == f@[j],
    {
        if e[i] != f[i] {
            assert(e@.take(n + 1)[i as int] != want[i as int]);
            return false;
        }
    }
    if e[n] != '_' {
        assert(e@.take(n + 1)[n as int] != want[n as int]);
        return false;
    }
    assert(e@.take(n + 1) =~= want);
    true
}

/// A stored name belongs to its own upload and to no other: two distinct
/// upload ids (both in uuid's form) never claim the same file on disk.
pub proof fn law_stored_names_identify_their_upload(
    id: Seq<char>,
    other: Seq<char>,
    filename: Seq<char>,
)
    requires
        uuid_shaped(id),
        uuid_shaped(other),
        id != other,
    ensures
        stored_for(stored_name(id, filename), id),
        !stored_for(stored_name(id, filename), other),
{
    let name = stored_name(id, filename);
    assert(name.take(37) =~= id + seq!['_']);
    if stored_for(name, other) {
        assert forall|i: int| 0 <= i < 36 implies id[i] == other[i] by {
            assert(name.take(37)[i] == (other + seq!['_'])[i]);
            assert(name.take(37)[i] == (id + seq!['_'])[i]);
        }
        assert(id =~= other);
    }
}

/// The address an upload is downloaded from.
pub fn download_url(file_id: &str) -> (r: String)
    ensures
        r@ == "/api/files/"@ + file_id@,
{
    concat("/api/files/", file_id)
}

/// The file name written into a `Content-Disposition` header: double
/// quotes and backslashes become underscores.
pub open spec fn header_safe(name: Seq<char>) -> Seq<char>
    decreases name.len(),
{
    if name.len() == 0 {
        name
    } else {
        let c = name.last();
        header_safe(name.drop_last()).push(if c == '"' || c == '\\' { '_' } else { c })
    }
}

/// The `Content-Disposition` header a download is sent with.
pub fn content_disposition(filename: &str) -> (r: String)
    ensures
        r@ == "attachment; filename=\""@ + header_safe(filename@) + "\""@,
{
    let cs = chars_of(filename);
    let n = cs.len();
    let mut safe: Vec<char> = Vec::new();
    for i in 0..n
        invariant
            n == cs@.len(),
            cs@ == filename@,
            safe@ == header_safe(cs@.take(i as int)),
    {
        assert(cs@.take(i + 1).drop_last() == cs@.take(i as int));
        let c = cs[i];
        if c == '"' || c == '\\' {
            safe.push('_');
        } else {
            safe.push(c);
        }
    }
    assert(cs@.take(n as int) == filename@);
    let safe_name = string_of(safe.as_slice());
    let head = concat("attachment; filename=\"", safe_name.as_str());
    concat(head.as_str(), "\"")
}

/// Whether `s` contains the character `c`.
pub open spec fn has_char(s: Seq<char>, c: char) -> bool {
    exists|i: int| 0 <= i < s.len() && s[i] == c
}

/// The segments a path scan yields never contain a separator.
proof fn lemma_scan_has_no_separator(s: Seq<char>)
    ensures
        !has_char(scan_path(s).1, '/'),
        scan_path(s).0 matches Some(seg) ==> !has_char(seg, '/'),
    decreases s.len(),
{
    if s.len() > 0 {
        lemma_scan_has_no_separator(s.drop_last());
        let cur = scan_path(s.drop_last()).1;
        if s.last() != '/' {
            assert forall|i: int| 0 <= i < cur.push(s.last()).len() implies cur.push(s.last())[i]
                != '/' by {
                if i < cur.len() {
                    assert(cur.push(s.last())[i] == cur[i]);
                }
            }
        }
    }
}

/// Dropping control characters leaves none, and adds no character.
proof fn lemma_without_controls(s: Seq<char>)
    ensures
        forall|i: int|
            0 <= i < without_controls(s).len() ==> !is_control(#[trigger] without_controls(s)[i]),
        forall|c: char| has_char(without_controls(s), c) ==> has_char(s, c),
    decreases s.len(),
{
    if s.len() > 0 {
        lemma_without_controls(s.drop_last());
        let w = without_controls(s.drop_last());
        assert forall|c: char| has_char(without_controls(s), c) implies has_char(s, c) by {
            let i = choose|i: int|
                0 <= i < without_controls(s).len() && without_controls(s)[i] == c;
            if !is_control(s.last()) && i == w.len() {
                assert(s[s.len() - 1] == c);
            } else {
                assert(without_controls(s)[i] == w[i]);
                assert(has_char(w, c));
                assert(has_char(s.drop_last(), c));
                let j = choose|j: int| 0 <= j < s.drop_last().len() && s.drop_last()[j] == c;
                assert(s[j] == c);
            }
        }
        if !is_control(s.last()) {
            assert forall|i: int| 0 <= i < w.push(s.last()).len() implies !is_control(
                #[trigger] w.push(s.last())[i],
            ) by {
                if i < w.len() {
                    assert(w.push(s.last())[i] == w[i]);
                }
            }
        }
    }
}

/// A stored file name is never empty, never `.` or `..`, and holds neither
/// a path separator nor a control character: it cannot climb out of the
/// upload directory or break the header it is sent in.
pub proof fn law_sanitized_names_are_safe(name: Seq<char>)
    ensures
        sanitized(name).len() > 0,
        sanitized(name) != seq!['.'],
        sanitized(name) != seq!['.', '.'],
        !has_char(sanitized(name), '/'),
        forall|i: int|
            0 <= i < sanitized(name).len() ==> !is_control(#[trigger] sanitized(name)[i]),
{
    reveal_strlit("unknown");
    let unknown = "unknown"@;
    assert(unknown.len() == 7);
    assert(unknown != seq!['.']);
    assert(unknown != seq!['.', '.']);
    assert(!has_char(unknown, '/')) by {
        assert forall|i: int| 0 <= i < 7 implies unknown[i] != '/' by {}
    }
    assert forall|i: int| 0 <= i < unknown.len() implies !is_control(#[trigger] unknown[i]) by {}
    lemma_scan_has_no_separator(name);
    let base = match file_name(name) {
        Some(b) => b,
        None => unknown,
    };
    assert(!has_char(base, '/'));
    lemma_without_controls(base);
}

/// A path with no separator is read as one segment still being read.
proof fn lemma_scan_without_separator(s: Seq<char>)
    requires
        !has_char(s, '/'),
    ensures
        scan_path(s) == (None::<Seq<char>>, s),
    decreases s.len(),
{
    if s.len() > 0 {
        assert(!has_char(s.drop_last(), '/')) by {
            if has_char(s.drop_last(), '/') {
                let j = choose|j: int| 0 <= j < s.drop_last().len() && s.drop_last()[j] == '/';
                assert(s[j] == '/');
            }
        }
        lemma_scan_without_separator(s.drop_last());
        assert(s.last() != '/') by {
            assert(s[s.len() - 1] == s.last());
        }
        assert(s.drop_last().push(s.last()) =~= s);
    }
}

/// Dropping control characters from a text that has none changes nothing.
proof fn lemma_without_controls_keeps_clean(s: Seq<char>)
    requires
        forall|i: int| 0 <= i < s.len() ==> !is_control(#[trigger] s[i]),
    ensures
        without_controls(s) == s,
    decreases s.len(),
{
    if s.len() > 0 {
        assert forall|i: int| 0 <= i < s.drop_last().len() implies !is_control(
            #[trigger] s.drop_last()[i],
        ) by {
            assert(s.drop_last()[i] == s[i]);
        }
        lemma_without_controls_keeps_clean(s.drop_last());
        assert(!is_control(s[s.len() - 1]));
        assert(s.drop_last().push(s.last()) =~= s);
    }
}

/// Cleaning a stored name again gives the same name: a name that
/// `sanitize_filename` gave is left as it is.
pub proof fn law_sanitizing_twice_changes_nothing(name: Seq<char>)
    ensures
        sanitized(sanitized(name)) == sanitized(name),
{
    let s = sanitized(name);
    law_sanitized_names_are_safe(name);
    lemma_scan_without_separator(s);
    assert(file_name(s) == Some(s));
    lemma_without_controls_keeps_clean(s);
}

/// The name in a download's `Content-Disposition` header keeps the length
/// of the stored name and holds no double quote or backslash, so it cannot
/// end the quoted string early.
pub proof fn law_header_name_cannot_break_quotes(name: Seq<char>)
    ensures
        header_safe(name).len() == name.len(),
        !has_char(header_safe(name), '"'),
        !has_char(header_safe(name), '\\'),
    decreases name.len(),
{
    if name.len() > 0 {
        law_header_name_cannot_break_quotes(name.drop_last());
        let h = header_safe(name.drop_last());
        let c = name.last();
        let d = if c == '"' || c == '\\' {
            '_'
        } else {
            c
        };
        assert forall|i: int| 0 <= i < h.push(d).len() implies h.push(d)[i] != '"' && h.push(
            d,
        )[i] != '\\' by {
            if i < h.len() {
                assert(h.push(d)[i] == h[i]);
                assert(!has_char(h, '"'));
            }
        }
    }
}

}
