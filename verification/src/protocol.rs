//! NDJSON protocol for worker mode communication: requests, responses, and
//! the reading of one request line within a size cap.
use base64::Engine;
use vstd::prelude::*;
use vstd::std_specs::convert::FromSpecImpl;
use vstd::utf8::{decode_utf8, valid_utf8};
use crate::render::CompileError;
use crate::template::TemplateKind;
use crate::text::{all_ws, chars_of, decimal, push_decimal, push_str, str_is_blank, string_of_range, trim, trim_bounds};

verus! {

/// Protocol version reported in the ready message.
///
/// Bumped on any breaking change to request/response structure or semantics.
pub const PROTOCOL_VERSION: u32 = 1;

/// Template selection in the protocol.
#[derive(Debug, Clone, Copy, PartialEq, Eq, Structural)]
pub enum TemplateStr {
    Raw,
    DeprecatedDefault,
    Quiconf,
}

impl Default for TemplateStr {
    fn default() -> (r: Self)
        ensures
            r == TemplateStr::Raw,
    {
        TemplateStr::Raw
    }
}

/// The template kind that a protocol template name selects.
pub open spec fn template_kind_of(s: TemplateStr) -> TemplateKind {
    match s {
        TemplateStr::Raw => TemplateKind::Raw,
        TemplateStr::DeprecatedDefault => TemplateKind::DeprecatedDefault,
        TemplateStr::Quiconf => TemplateKind::Quiconf,
    }
}

/// Each protocol template name selects the template of the same name, so
/// different names select different templates, and the default name selects
/// no template at all.
pub proof fn law_template_names(s: TemplateStr, t: TemplateStr)
    ensures
        template_kind_of(s) == template_kind_of(t) ==> s == t,
        s == TemplateStr::Raw <==> template_kind_of(s) == TemplateKind::Raw,
        s == TemplateStr::Quiconf <==> template_kind_of(s) == TemplateKind::Quiconf,
        s == TemplateStr::DeprecatedDefault <==> template_kind_of(s)
            == TemplateKind::DeprecatedDefault,
{
}

impl<'a> From<&'a TemplateStr> for TemplateKind {
    fn from(s: &'a TemplateStr) -> (r: Self) {
        match s {
            TemplateStr::Raw => TemplateKind::Raw,
            TemplateStr::DeprecatedDefault => TemplateKind::DeprecatedDefault,
            TemplateStr::Quiconf => TemplateKind::Quiconf,
        }
    }
}

impl<'a> FromSpecImpl<&'a TemplateStr> for TemplateKind {
    open spec fn obeys_from_spec() -> bool {
        true
    }

    open spec fn from_spec(s: &'a TemplateStr) -> TemplateKind {
        template_kind_of(*s)
    }
}

/// Output format requested by the parent. Reserved for future expansion (PDF/SVG).
#[derive(Debug, Clone, Copy, PartialEq, Eq, Structural)]
pub enum OutputFormat {
    Png,
}

impl Default for OutputFormat {
    fn default() -> (r: Self)
        ensures
            r == OutputFormat::Png,
    {
        OutputFormat::Png
    }
}

/// A compilation request from the parent process.
///
/// The PNG pixel scale is carried as the bit pattern of its `f32` value
/// (`f32::to_bits`); nothing here computes with it.
#[derive(Debug)]
pub struct Request {
    /// Optional correlation ID, echoed in response.
    pub id: Option<String>,
    /// Typst source code.
    pub source: String,
    /// Template to apply.
    pub template: TemplateStr,
    /// Bits of the `f32` PNG pixel scale.
    pub scale_bits: u32,
    /// Maximum number of pages to render. Falls back to CLI default when unset.
    pub max_pages: Option<usize>,
    /// Output format. Currently only `"png"` is supported.
    pub format: OutputFormat,
    /// Whether to vertically stitch all pages into a single image. Currently
    /// only `true` is supported; `false` is reserved for future expansion.
    pub stitch: bool,
}

/// Requests stitch pages together unless they say otherwise.
pub fn default_stitch() -> (r: bool)
    ensures
        r,
{
    true
}

/// What the `base64` crate's `STANDARD` engine (standard alphabet, with
/// padding) encodes `data` to.
pub uninterp spec fn base64_standard(data: Seq<u8>) -> Seq<char>;

/// Calls `general_purpose::STANDARD.encode` (`base64` crate); the result is
/// named by `base64_standard`, and its length is the padded encoded length
/// that the crate computes (`encoded_len`), which panics when that length
/// does not fit in `usize`.
#[verifier::external_body]
fn base64_encode(data: &[u8]) -> (r: String)
    requires
        4 * ((data@.len() + 2) / 3) <= usize::MAX,
    ensures
        r@ == base64_standard(data@),
        r@.len() == 4 * ((data@.len() + 2) / 3),
{
    base64::engine::general_purpose::STANDARD.encode(data)
}

/// Whether the standard base64 encoding of `n` bytes has a length that fits
/// in `usize`.
pub fn base64_len_fits(n: usize) -> (r: bool)
    ensures
        r == (4 * ((n + 2) / 3) <= usize::MAX),
{
    let groups: u128 = (n as u128 + 2) / 3;
    4 * groups <= usize::MAX as u128
}

/// A compilation response to the parent process.
#[derive(Debug)]
pub struct Response {
    pub id: Option<String>,
    pub ok: bool,
    pub format: Option<OutputFormat>,
    pub data: Option<String>,
    pub pages: Option<usize>,
    pub errors: Option<Vec<CompileError>>,
    pub warnings: Option<Vec<CompileError>>,
}

impl Response {
    /// A success response carrying already encoded image data.
    pub fn success_encoded(
        id: Option<String>,
        format: OutputFormat,
        data: String,
        pages: usize,
        warnings: Vec<CompileError>,
    ) -> (r: Self)
        ensures
            r.id == id,
            r.ok,
            r.format == Some(format),
            r.data == Some(data),
            r.pages == Some(pages),
            r.errors is None,
            r.warnings == if warnings@.len() == 0 {
                None
            } else {
                Some(warnings)
            },
    {
        Response {
            id,
            ok: true,
            format: Some(format),
            data: Some(data),
            pages: Some(pages),
            errors: None,
            warnings: if warnings.len() == 0 {
                None
            } else {
                Some(warnings)
            },
        }
    }

    /// A success response: the PNG in standard base64, the page count, and
    /// the warnings when there are any.
    pub fn success(
        id: Option<String>,
        format: OutputFormat,
        png_data: &[u8],
        pages: usize,
        warnings: Vec<CompileError>,
    ) -> (r: Self)
        requires
            4 * ((png_data@.len() + 2) / 3) <= usize::MAX,
        ensures
            r.id == id,
            r.ok,
            r.format == Some(format),
            r.data matches Some(d) && d@ == base64_standard(png_data@) && d@.len() == 4 * ((
            png_data@.len() + 2) / 3),
            r.pages == Some(pages),
            r.errors is None,
            r.warnings == if warnings@.len() == 0 {
                None
            } else {
                Some(warnings)
            },
    {
        let data = base64_encode(png_data);
        Self::success_encoded(id, format, data, pages, warnings)
    }

    /// A failure response: only the id and the errors.
    pub fn failure(id: Option<String>, errors: Vec<CompileError>) -> (r: Self)
        ensures
            r.id == id,
            !r.ok,
            r.format is None,
            r.data is None,
            r.pages is None,
            r.errors == Some(errors),
            r.warnings is None,
    {
        Response {
            id,
            ok: false,
            format: None,
            data: None,
            pages: None,
            errors: Some(errors),
            warnings: None,
        }
    }
}

/// Sent once after initialization to signal readiness.
#[derive(Debug)]
pub struct ReadyMessage {
    pub ready: bool,
    pub protocol_version: u32,
    pub version: String,
    pub fonts_loaded: usize,
}

// ---------------------------------------------------------------------------
// Reading one request
// ---------------------------------------------------------------------------

/// Outcome of reading one line of at most `max_input_size + 1` bytes.
#[derive(Debug)]
pub enum LineRead {
    Eof,
    Empty,
    Line(String),
    /// The line is longer than the cap. `unfinished` tells that the bytes
    /// read stop before the line's newline, so the rest of the line is still
    /// to be consumed before the next line starts.
    Oversized { unfinished: bool },
}

/// The bytes read stop at a line's end: they end with a newline.
pub open spec fn ends_at_newline(buf: Seq<u8>) -> bool {
    buf.len() > 0 && buf.last() == 10u8
}

/// What `String::from_utf8` reports (as text) for bytes that are not UTF-8.
pub uninterp spec fn utf8_error_text(bytes: Seq<u8>) -> Seq<char>;

/// Calls `String::from_utf8`, which std documents to succeed exactly on valid
/// UTF-8, with the decoded characters; the error's `Display` text is named
/// by `utf8_error_text`.
#[verifier::external_body]
fn string_from_utf8(bytes: Vec<u8>) -> (r: Result<String, String>)
    ensures
        match r {
            Ok(s) => valid_utf8(bytes@) && s@ == decode_utf8(bytes@),
            Err(e) => !valid_utf8(bytes@) && e@ == utf8_error_text(bytes@),
        },
{
    match String::from_utf8(bytes) {
        Ok(s) => Ok(s),
        Err(e) => Err(e.to_string()),
    }
}

/// Classify the bytes read for one line (up to and including its newline,
/// at most `max_input_size + 1` of them): end of input, a line longer than
/// the cap, a blank line, or a line of text; bytes that are not UTF-8 are an
/// error.
pub fn classify_capped_line(buf: Vec<u8>, max_input_size: usize) -> (r: Result<LineRead, String>)
    ensures
        buf@.len() == 0 ==> r matches Ok(LineRead::Eof),
        buf@.len() > 0 && buf@.len() > max_input_size ==> (r matches Ok(
            LineRead::Oversized { unfinished },
        ) && unfinished == !ends_at_newline(buf@)),
        0 < buf@.len() <= max_input_size ==> if valid_utf8(buf@) {
            if all_ws(decode_utf8(buf@)) {
                r matches Ok(LineRead::Empty)
            } else {
                r matches Ok(LineRead::Line(s)) && s@ == decode_utf8(buf@)
            }
        } else {
            r matches Err(e) && e@ == utf8_error_text(buf@)
        },
{
    if buf.len() == 0 {
        return Ok(LineRead::Eof);
    }
    if buf.len() > max_input_size {
        let unfinished = buf[buf.len() - 1] != 10u8;
        return Ok(LineRead::Oversized { unfinished });
    }
    let s = match string_from_utf8(buf) {
        Ok(s) => s,
        Err(e) => return Err(e),
    };
    if str_is_blank(s.as_str()) {
        Ok(LineRead::Empty)
    } else {
        Ok(LineRead::Line(s))
    }
}

/// Outcome returned to the worker loop.
#[derive(Debug)]
pub enum ReadOutcome {
    /// stdin closed, worker should shut down.
    Eof,
    /// A valid request.
    Request(Request),
    /// Recoverable error (bad JSON, oversized line). Worker should reply with
    /// a Protocol error and continue.
    Protocol(String),
}

/// What to do after reading one line.
#[derive(Debug)]
pub enum ReadStep {
    /// A blank line: read the next one.
    Skip,
    /// Reading ends with this outcome.
    Finish(ReadOutcome),
    /// Parse this (trimmed) text as a JSON request.
    ParseJson(String),
}

/// `request too large (limit: N bytes)`.
pub open spec fn too_large_text(limit: nat) -> Seq<char> {
    "request too large (limit: "@ + decimal(limit) + " bytes)"@
}

/// The decision of `read_request` on one line read: blank lines are skipped,
/// end of input ends the session, an oversized line or a read failure is a
/// protocol error, and any other line is parsed as JSON.
pub fn read_step(read: Result<LineRead, String>, max_input_size: usize) -> (r: ReadStep)
    ensures
        match read {
            Ok(LineRead::Eof) => r matches ReadStep::Finish(ReadOutcome::Eof),
            Ok(LineRead::Empty) => r matches ReadStep::Skip,
            Ok(LineRead::Oversized { .. }) => r matches ReadStep::Finish(ReadOutcome::Protocol(m)) && m@
                == too_large_text(max_input_size as nat),
            Ok(LineRead::Line(s)) => r matches ReadStep::ParseJson(t) && t@ == trim(s@),
            Err(e) => r matches ReadStep::Finish(ReadOutcome::Protocol(m)) && m@
                == "failed to read stdin: "@ + e@,
        },
{
    match read {
        Ok(LineRead::Eof) => ReadStep::Finish(ReadOutcome::Eof),
        Ok(LineRead::Empty) => ReadStep::Skip,
        Ok(LineRead::Oversized { .. }) => {
            let mut m = String::new();
            push_str(&mut m, "request too large (limit: ");
            push_decimal(&mut m, max_input_size as u64);
            push_str(&mut m, " bytes)");
            ReadStep::Finish(ReadOutcome::Protocol(m))
        },
        Ok(LineRead::Line(s)) => {
            let v = chars_of(s.as_str());
            let (a, b) = trim_bounds(&v, 0, v.len());
            assert(v@.subrange(0, v.len() as int) == v@);
            ReadStep::ParseJson(string_of_range(&v, a, b))
        },
        Err(e) => {
            let mut m = String::new();
            push_str(&mut m, "failed to read stdin: ");
            push_str(&mut m, e.as_str());
            ReadStep::Finish(ReadOutcome::Protocol(m))
        },
    }
}

/// `invalid JSON: {detail}`.
pub fn invalid_json_message(detail: &str) -> (r: String)
    ensures
        r@ == "invalid JSON: "@ + detail@,
{
    let mut m = String::new();
    push_str(&mut m, "invalid JSON: ");
    push_str(&mut m, detail);
    m
}

} // verus!
