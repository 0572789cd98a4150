//! Diagnostics, worker-generated errors, the page limits and the vertical
//! stitching of rendered pages into one PNG.
use image::ImageEncoder;
use vstd::prelude::*;
use crate::i18n::Lang;
use crate::strings::log_template_internal_error;
use crate::text::{decimal, push_decimal, push_str};

verus! {

// ---------------------------------------------------------------------------
// Error types
// ---------------------------------------------------------------------------

/// Classification used by parent processes to route handling.
#[derive(Debug, Clone, Copy, PartialEq, Eq, Structural)]
pub enum ErrorKind {
    /// Error originating in user typst source.
    Compile,
    /// Warning emitted by the typst compiler. Carried in `Response.warnings`.
    Warning,
    /// Resource limit hit (max_pages, max_pixels, empty document).
    Limit,
    /// Worker-internal error (encoding failure, unimplemented feature).
    Internal,
    /// Protocol-level error (bad JSON, oversized request).
    Protocol,
}

/// Location of a diagnostic in source.
#[derive(Debug, Clone, Copy, PartialEq, Eq, Structural)]
pub struct ErrorSpan {
    pub line: usize,
    pub column: usize,
}

/// Structured error codes for worker-generated errors.
///
/// Carries structured data so that error messages can be formatted in the
/// user's locale at display time while the wire protocol always receives a
/// stable English `message` string.
#[derive(Debug, Clone)]
#[allow(inconsistent_fields)]
pub enum ErrorCode {
    /// Document compiled but produced zero pages.
    NoPages,
    /// Document exceeded the page limit.
    TooManyPages { actual: usize, limit: usize },
    /// Rendered image exceeded the pixel limit.
    TooManyPixels { width: u32, height: u32, pixels: u64, limit: u64 },
    /// Rendered image has zero dimensions.
    ZeroSize,
    /// PNG encoding failed.
    PngEncodingFailed { detail: String },
    /// Feature not yet implemented.
    Unsupported { feature: String },
    /// Protocol-level problem (bad JSON, oversized request).
    ProtocolError { detail: String },
}

impl ErrorCode {
    /// The stable English message of the code.
    pub open spec fn english(&self) -> Seq<char> {
        match self {
            ErrorCode::NoPages => "document produced no pages"@,
            ErrorCode::TooManyPages { actual, limit } => "document has "@ + decimal(*actual as nat)
                + " pages, exceeding limit of "@ + decimal(*limit as nat),
            ErrorCode::TooManyPixels { width, height, pixels, limit } => "rendered image "@
                + decimal(*width as nat) + "x"@ + decimal(*height as nat) + " ("@ + decimal(
                *pixels as nat,
            ) + " pixels) exceeds limit of "@ + decimal(*limit as nat) + " pixels"@,
            ErrorCode::ZeroSize => "rendered image has zero size"@,
            ErrorCode::PngEncodingFailed { detail } => "PNG encoding failed: "@ + detail@,
            ErrorCode::Unsupported { feature } => feature@ + " is not yet supported by this worker"@,
            ErrorCode::ProtocolError { detail } => detail@,
        }
    }

    /// The Chinese message of the code.
    pub open spec fn chinese(&self) -> Seq<char> {
        match self {
            ErrorCode::NoPages => "文档未生成任何页面"@,
            ErrorCode::TooManyPages { actual, limit } => "文档有 "@ + decimal(*actual as nat)
                + " 页，超过限制 "@ + decimal(*limit as nat) + " 页"@,
            ErrorCode::TooManyPixels { width, height, pixels, limit } => "渲染图像 "@ + decimal(
                *width as nat,
            ) + "x"@ + decimal(*height as nat) + "（"@ + decimal(*pixels as nat) + " 像素）超过限制 "@
                + decimal(*limit as nat) + " 像素"@,
            ErrorCode::ZeroSize => "渲染图像尺寸为零"@,
            ErrorCode::PngEncodingFailed { detail } => "PNG 编码失败："@ + detail@,
            ErrorCode::Unsupported { feature } => "此工作进程尚不支持 "@ + feature@,
            ErrorCode::ProtocolError { detail } => detail@,
        }
    }

    /// The message of the code in `lang`.
    pub open spec fn localized(&self, lang: Lang) -> Seq<char> {
        match lang {
            Lang::En => self.english(),
            Lang::Zh => self.chinese(),
        }
    }

    /// Stable English message for the wire protocol.
    pub fn message_en(&self) -> (r: String)
        ensures
            r@ == self.english(),
    {
        let mut r = String::new();
        match self {
            ErrorCode::NoPages => push_str(&mut r, "document produced no pages"),
            ErrorCode::TooManyPages { actual, limit } => {
                push_str(&mut r, "document has ");
                push_decimal(&mut r, *actual as u64);
                push_str(&mut r, " pages, exceeding limit of ");
                push_decimal(&mut r, *limit as u64);
            },
            ErrorCode::TooManyPixels { width, height, pixels, limit } => {
                push_str(&mut r, "rendered image ");
                push_decimal(&mut r, *width as u64);
                push_str(&mut r, "x");
                push_decimal(&mut r, *height as u64);
                push_str(&mut r, " (");
                push_decimal(&mut r, *pixels);
                push_str(&mut r, " pixels) exceeds limit of ");
                push_decimal(&mut r, *limit);
                push_str(&mut r, " pixels");
            },
            ErrorCode::ZeroSize => push_str(&mut r, "rendered image has zero size"),
            ErrorCode::PngEncodingFailed { detail } => {
                push_str(&mut r, "PNG encoding failed: ");
                push_str(&mut r, detail.as_str());
            },
            ErrorCode::Unsupported { feature } => {
                push_str(&mut r, feature.as_str());
                push_str(&mut r, " is not yet supported by this worker");
            },
            ErrorCode::ProtocolError { detail } => push_str(&mut r, detail.as_str()),
        }
        r
    }

    /// Localized message for CLI display (stderr).
    pub fn message_local(&self, lang: Lang) -> (r: String)
        ensures
            r@ == self.localized(lang),
    {
        match lang {
            Lang::En => self.message_en(),
            Lang::Zh => {
                let mut r = String::new();
                match self {
                    ErrorCode::NoPages => push_str(&mut r, "文档未生成任何页面"),
                    ErrorCode::TooManyPages { actual, limit } => {
                        push_str(&mut r, "文档有 ");
                        push_decimal(&mut r, *actual as u64);
                        push_str(&mut r, " 页，超过限制 ");
                        push_decimal(&mut r, *limit as u64);
                        push_str(&mut r, " 页");
                    },
                    ErrorCode::TooManyPixels { width, height, pixels, limit } => {
                        push_str(&mut r, "渲染图像 ");
                        push_decimal(&mut r, *width as u64);
                        push_str(&mut r, "x");
                        push_decimal(&mut r, *height as u64);
                        push_str(&mut r, "（");
                        push_decimal(&mut r, *pixels);
                        push_str(&mut r, " 像素）超过限制 ");
                        push_decimal(&mut r, *limit);
                        push_str(&mut r, " 像素");
                    },
                    ErrorCode::ZeroSize => push_str(&mut r, "渲染图像尺寸为零"),
                    ErrorCode::PngEncodingFailed { detail } => {
                        push_str(&mut r, "PNG 编码失败：");
                        push_str(&mut r, detail.as_str());
                    },
                    ErrorCode::Unsupported { feature } => {
                        push_str(&mut r, "此工作进程尚不支持 ");
                        push_str(&mut r, feature.as_str());
                    },
                    ErrorCode::ProtocolError { detail } => push_str(&mut r, detail.as_str()),
                }
                r
            },
        }
    }
}

/// A structured compile-side message: error or warning.
#[derive(Debug, Clone)]
pub struct CompileError {
    pub kind: ErrorKind,
    pub message: String,
    pub span: Option<ErrorSpan>,
    pub hints: Vec<String>,
    /// Structured error code for worker-generated errors. `None` for typst
    /// compiler diagnostics. Not serialized to the wire protocol.
    pub code: Option<ErrorCode>,
}

/// `e` is the error of kind `kind` that `code` describes: its message is the
/// code's English text, with no span and no hints.
pub open spec fn is_coded_error(e: CompileError, kind: ErrorKind, code: ErrorCode) -> bool {
    &&& e.kind == kind
    &&& e.message@ == code.english()
    &&& e.span is None
    &&& e.hints@.len() == 0
    &&& e.code == Some(code)
}

/// The English localized message of a code is the one sent on the wire.
pub proof fn law_english_message_is_wire_message(code: ErrorCode)
    ensures
        code.localized(Lang::En) == code.english(),
{
}

impl CompileError {
    /// Create from a structured error code. The `message` field is
    /// auto-populated with the stable English text.
    pub fn from_code(kind: ErrorKind, code: ErrorCode) -> (r: Self)
        ensures
            is_coded_error(r, kind, code),
    {
        let message = code.message_en();
        CompileError { kind, message, span: None, hints: Vec::new(), code: Some(code) }
    }

    pub fn limit(code: ErrorCode) -> (r: Self)
        ensures
            is_coded_error(r, ErrorKind::Limit, code),
    {
        Self::from_code(ErrorKind::Limit, code)
    }

    pub fn internal(code: ErrorCode) -> (r: Self)
        ensures
            is_coded_error(r, ErrorKind::Internal, code),
    {
        Self::from_code(ErrorKind::Internal, code)
    }

    pub fn protocol(code: ErrorCode) -> (r: Self)
        ensures
            is_coded_error(r, ErrorKind::Protocol, code),
    {
        Self::from_code(ErrorKind::Protocol, code)
    }
}

/// Severity of a compiler diagnostic.
#[derive(Debug, Clone, Copy, PartialEq, Eq, Structural)]
pub enum Severity {
    Error,
    Warning,
}

/// Kind and span reported for a compiler diagnostic. `raw_span` is
/// `(in_main_file, line, column)`, one-based; lines of the main file are
/// shifted back by the template's prelude, and a diagnostic inside the
/// prelude is the worker's own fault.
pub open spec fn diagnostic_kind_span(
    severity: Severity,
    raw_span: Option<(bool, usize, usize)>,
    prelude_lines: usize,
) -> (ErrorKind, Option<ErrorSpan>) {
    let kind = match severity {
        Severity::Error => ErrorKind::Compile,
        Severity::Warning => ErrorKind::Warning,
    };
    match raw_span {
        Some((true, line, column)) => if line > prelude_lines {
            (kind, Some(ErrorSpan { line: (line - prelude_lines) as usize, column }))
        } else {
            (ErrorKind::Internal, Some(ErrorSpan { line, column }))
        },
        Some((false, line, column)) => (kind, Some(ErrorSpan { line, column })),
        None => (kind, None),
    }
}

/// Turn a compiler diagnostic into a `CompileError`, given its severity, its
/// position as the compiler reports it, its message and hints.
pub fn diagnostic_to_message(
    severity: Severity,
    raw_span: Option<(bool, usize, usize)>,
    prelude_lines: usize,
    message: &str,
    hints: Vec<String>,
    lang: Lang,
) -> (r: CompileError)
    ensures
        (r.kind, r.span) == diagnostic_kind_span(severity, raw_span, prelude_lines),
        r.message@ == if r.kind == ErrorKind::Internal && r.span is Some {
            log_template_internal_error(lang)@ + ": "@ + message@
        } else {
            message@
        },
        r.hints == hints,
        r.code is None,
{
    let kind = match severity {
        Severity::Error => ErrorKind::Compile,
        Severity::Warning => ErrorKind::Warning,
    };
    let (kind, span) = match raw_span {
        Some((true, line, column)) => {
            // Diagnostic in the main file. Subtract prelude lines so the user
            // sees positions relative to their own input.
            if line > prelude_lines {
                (kind, Some(ErrorSpan { line: line - prelude_lines, column }))
            } else {
                // Diagnostic landed inside template-injected prelude. This is
                // a worker bug, not user input.
                (ErrorKind::Internal, Some(ErrorSpan { line, column }))
            }
        },
        Some((false, line, column)) => (kind, Some(ErrorSpan { line, column })),
        None => (kind, None),
    };
    let mut text = String::new();
    if kind == ErrorKind::Internal && span.is_some() {
        push_str(&mut text, log_template_internal_error(lang));
        push_str(&mut text, ": ");
    }
    push_str(&mut text, message);
    CompileError { kind, message: text, span, hints, code: None }
}

/// The kind of a compiler diagnostic follows its severity — a warning is a
/// warning and an error a compile error — except for a position inside the
/// template's prelude (a line of the main file at or above the prelude's line
/// count), which is the worker's internal error. The position is kept as the
/// compiler reports it except in the main file below the prelude, where it is
/// moved up by the prelude's lines; a diagnostic without a position has none.
pub proof fn law_diagnostic_kind_follows_severity(
    severity: Severity,
    raw_span: Option<(bool, usize, usize)>,
    prelude_lines: usize,
)
    ensures
        ({
            let (kind, span) = diagnostic_kind_span(severity, raw_span, prelude_lines);
            let in_prelude = raw_span matches Some((true, line, _)) && line <= prelude_lines;
            &&& in_prelude ==> kind == ErrorKind::Internal
            &&& !in_prelude && severity == Severity::Warning ==> kind == ErrorKind::Warning
            &&& !in_prelude && severity == Severity::Error ==> kind == ErrorKind::Compile
            &&& raw_span is None ==> span is None
            &&& raw_span matches Some((in_main, line, column)) ==> span matches Some(sp) && sp.column
                == column && sp.line == if in_main && line > prelude_lines {
                line - prelude_lines
            } else {
                line as int
            }
        }),
{
}

/// A diagnostic of the user's own input keeps its position relative to that
/// input: a line of the main file below the prelude is reported that many
/// lines earlier, and a line inside the prelude is reported as the worker's
/// internal error.
pub proof fn law_diagnostic_line_shift(
    severity: Severity,
    line: usize,
    column: usize,
    prelude_lines: usize,
)
    ensures
        line > prelude_lines ==> diagnostic_kind_span(
            severity,
            Some((true, line, column)),
            prelude_lines,
        ).1 == Some(ErrorSpan { line: (line - prelude_lines) as usize, column }),
        line > prelude_lines ==> diagnostic_kind_span(
            severity,
            Some((true, line, column)),
            prelude_lines,
        ).0 != ErrorKind::Internal,
        line <= prelude_lines ==> diagnostic_kind_span(
            severity,
            Some((true, line, column)),
            prelude_lines,
        ).0 == ErrorKind::Internal,
        diagnostic_kind_span(severity, Some((false, line, column)), prelude_lines).1 == Some(
            ErrorSpan { line, column },
        ),
{
}

/// Enforce the page limit: a document needs at least one page and at most
/// `max_pages`.
pub fn check_page_count(page_count: usize, max_pages: usize) -> (r: Result<(), Vec<CompileError>>)
    ensures
        match r {
            Ok(()) => 0 < page_count <= max_pages,
            Err(v) => v@.len() == 1 && if page_count == 0 {
                is_coded_error(v@[0], ErrorKind::Limit, ErrorCode::NoPages)
            } else {
                page_count > max_pages && is_coded_error(
                    v@[0],
                    ErrorKind::Limit,
                    (ErrorCode::TooManyPages { actual: page_count, limit: max_pages }),
                )
            },
        },
{
    if page_count == 0 {
        return Err(vec![CompileError::limit(ErrorCode::NoPages)]);
    }
    if page_count > max_pages {
        return Err(
            vec![CompileError::limit(ErrorCode::TooManyPages { actual: page_count, limit: max_pages })],
        );
    }
    Ok(())
}


// ---------------------------------------------------------------------------
// Stitching rendered pages
// ---------------------------------------------------------------------------

/// One rendered page: `width` x `height` pixels, row by row, four bytes
/// (RGBA) per pixel.
pub struct PageImage {
    pub width: u32,
    pub height: u32,
    pub data: Vec<u8>,
}

/// The pages, one below the other, as a single image.
pub struct StitchedImage {
    pub width: u32,
    pub height: u32,
    pub rgba: Vec<u8>,
}

/// The page holds four bytes for each of its pixels.
pub open spec fn page_ok(p: PageImage) -> bool {
    p.data@.len() == 4 * (p.width as int) * (p.height as int)
}

/// The widest page's width (0 for no pages).
pub open spec fn max_width(pages: Seq<PageImage>) -> nat
    decreases pages.len(),
{
    if pages.len() == 0 {
        0
    } else {
        let rest = max_width(pages.drop_first());
        if pages[0].width > rest {
            pages[0].width as nat
        } else {
            rest
        }
    }
}

/// The sum of the pages' heights.
pub open spec fn total_height(pages: Seq<PageImage>) -> nat
    decreases pages.len(),
{
    if pages.len() == 0 {
        0
    } else {
        pages[0].height as nat + total_height(pages.drop_first())
    }
}

/// Byte `col` of row `row` of the stitched image: the row belongs to the
/// first page whose rows reach it; within that page's width it is the page's
/// byte, beyond it (and below the last page) it is opaque white.
pub open spec fn stitched_at(pages: Seq<PageImage>, row: int, col: int) -> u8
    decreases pages.len(),
{
    if pages.len() == 0 {
        255
    } else {
        let p = pages[0];
        if row < p.height {
            if col < 4 * p.width {
                p.data@[row * (4 * p.width) + col]
            } else {
                255
            }
        } else {
            stitched_at(pages.drop_first(), row - p.height, col)
        }
    }
}

/// `rgba` is the stitched image of `pages`, `4 * width` bytes per row.
pub open spec fn is_stitched(pages: Seq<PageImage>, width: nat, height: nat, rgba: Seq<u8>) -> bool {
    &&& rgba.len() == 4 * width * height
    &&& forall|i: int|
        0 <= i < rgba.len() ==> #[trigger] rgba[i] == stitched_at(
            pages,
            i / (4 * width as int),
            i % (4 * width as int),
        )
}

proof fn lemma_total_height_push(s: Seq<PageImage>, x: PageImage)
    ensures
        total_height(s.push(x)) == total_height(s) + x.height,
    decreases s.len(),
{
    let t = s.push(x);
    if s.len() > 0 {
        assert(t[0] == s[0]);
        assert(t.drop_first() =~= s.drop_first().push(x));
        lemma_total_height_push(s.drop_first(), x);
        assert(total_height(t) == t[0].height + total_height(t.drop_first()));
        assert(total_height(s) == s[0].height + total_height(s.drop_first()));
    } else {
        assert(t[0] == x);
        assert(t.drop_first() =~= Seq::<PageImage>::empty());
        assert(total_height(t.drop_first()) == 0);
        assert(total_height(s) == 0);
    }
}

proof fn lemma_max_width_push(s: Seq<PageImage>, x: PageImage)
    ensures
        max_width(s.push(x)) == if x.width > max_width(s) {
            x.width as nat
        } else {
            max_width(s)
        },
    decreases s.len(),
{
    let t = s.push(x);
    if s.len() > 0 {
        assert(t[0] == s[0]);
        assert(t.drop_first() =~= s.drop_first().push(x));
        lemma_max_width_push(s.drop_first(), x);
    } else {
        assert(t[0] == x);
        assert(t.drop_first() =~= Seq::<PageImage>::empty());
        assert(max_width(t.drop_first()) == 0);
        assert(max_width(s) == 0);
    }
}

proof fn lemma_max_width_bound(s: Seq<PageImage>, k: int)
    requires
        0 <= k < s.len(),
    ensures
        s[k].width <= max_width(s),
    decreases s.len(),
{
    if k > 0 {
        lemma_max_width_bound(s.drop_first(), k - 1);
    }
}

/// The stitched image is as wide as its widest page — no page is wider, and
/// some page is exactly that wide — and as tall as all pages together: a
/// page added below adds its height, and every run of leading pages is no
/// taller than the whole.
pub proof fn law_stitched_dimensions(pages: Seq<PageImage>, extra: PageImage, k: int)
    ensures
        0 <= k < pages.len() ==> pages[k].width <= max_width(pages),
        pages.len() > 0 ==> exists|j: int|
            0 <= j < pages.len() && #[trigger] pages[j].width == max_width(pages),
        pages.len() == 0 ==> max_width(pages) == 0 && total_height(pages) == 0,
        total_height(pages.push(extra)) == total_height(pages) + extra.height,
        0 <= k <= pages.len() ==> total_height(pages.take(k)) <= total_height(pages),
    decreases pages.len(),
{
    if 0 <= k < pages.len() {
        lemma_max_width_bound(pages, k);
    }
    lemma_total_height_push(pages, extra);
    if 0 <= k <= pages.len() {
        lemma_total_height_prefix(pages, k);
    }
    if pages.len() > 0 {
        let rest = pages.drop_first();
        law_stitched_dimensions(rest, extra, 0);
        if pages[0].width > max_width(rest) || rest.len() == 0 {
            assert(pages[0].width == max_width(pages));
        } else {
            let j = choose|j: int| 0 <= j < rest.len() && #[trigger] rest[j].width == max_width(rest);
            assert(pages[j + 1].width == max_width(pages));
        }
    }
}

/// In the stitched image, row `r` of page `k` is row `r` plus the heights of
/// the pages before it: within the page's width it holds the page's bytes,
/// to the right of it opaque white.
pub proof fn law_page_row_in_stitched_image(pages: Seq<PageImage>, k: int, r: int, c: int)
    requires
        0 <= k < pages.len(),
        0 <= r < pages[k].height,
        0 <= c,
    ensures
        stitched_at(pages, total_height(pages.take(k)) + r, c) == if c < 4 * pages[k].width {
            pages[k].data@[r * (4 * pages[k].width) + c]
        } else {
            255u8
        },
    decreases k,
{
    if k > 0 {
        let rest = pages.drop_first();
        assert(pages.take(k).drop_first() == rest.take(k - 1));
        assert(pages.take(k)[0] == pages[0]);
        law_page_row_in_stitched_image(rest, k - 1, r, c);
    } else {
        assert(pages.take(0) == Seq::<PageImage>::empty());
    }
}

/// The position of byte `i` in rows of `rb` bytes.
proof fn lemma_row_col(i: int, rb: int, row: int, col: int)
    requires
        rb > 0,
        0 <= col < rb,
        i == row * rb + col,
    ensures
        i / rb == row,
        i % rb == col,
{
    vstd::arithmetic::div_mod::lemma_fundamental_div_mod_converse_div(i, rb, row, col);
    vstd::arithmetic::div_mod::lemma_fundamental_div_mod_converse_mod(i, rb, row, col);
}

/// Byte `i` has been written once its row is below `rows` or it is in row
/// `rows` left of `cols`.
pub open spec fn written(i: int, rb: int, rows: int, cols: int) -> bool {
    i / rb < rows || (i / rb == rows && i % rb < cols)
}

/// Copies row `row` of page `k` into `combined` at row `y + row`.
fn copy_row(
    combined: &mut Vec<u8>,
    pages: &Vec<PageImage>,
    k: usize,
    y: usize,
    row: usize,
    rb: usize,
)
    requires
        0 <= k < pages.len(),
        page_ok(pages@[k as int]),
        y == total_height(pages@.take(k as int)),
        row < pages@[k as int].height,
        4 * pages@[k as int].width <= rb,
        rb > 0,
        (y + row + 1) * rb <= old(combined)@.len(),
        forall|i: int|
            0 <= i < old(combined)@.len() ==> #[trigger] old(combined)@[i] == if written(
                i,
                rb as int,
                y + row,
                0,
            ) {
                stitched_at(pages@, i / (rb as int), i % (rb as int))
            } else {
                255u8
            },
    ensures
        final(combined)@.len() == old(combined)@.len(),
        forall|i: int|
            0 <= i < final(combined)@.len() ==> #[trigger] final(combined)@[i] == if written(
                i,
                rb as int,
                y + row + 1,
                0,
            ) {
                stitched_at(pages@, i / (rb as int), i % (rb as int))
            } else {
                255u8
            },
{
    let p = &pages[k];
    let dlen = p.data.len();
    let clen = combined.len();
    let ghost len = combined@.len();
    proof {
        assert(4 * p.width <= usize::MAX) by (nonlinear_arith)
            requires
                4 * p.width <= rb,
                rb <= usize::MAX,
        ;
    }
    let pw4: usize = p.width as usize * 4;
    let ghost rbi = rb as int;
    let ghost yr = (y + row) as int;
    proof {
        assert(row * pw4 + pw4 <= p.data@.len()) by (nonlinear_arith)
            requires
                row < p.height,
                pw4 == 4 * p.width,
                p.data@.len() == 4 * (p.width as int) * (p.height as int),
        ;
        assert(yr * rbi + rbi <= len) by (nonlinear_arith)
            requires
                (yr + 1) * rbi <= len,
        ;
    }
    assert((y + row) * rb + rb <= len);
    assert(len <= usize::MAX);
    let src: usize = row * pw4;
    assert(yr <= yr * rbi) by (nonlinear_arith)
        requires
            yr >= 0,
            rbi >= 1,
    ;
    let yrow: usize = y + row;
    assert(yrow * rb <= len);
    let dst: usize = yrow * rb;
    let mut b: usize = 0;
    while b < pw4
        invariant
            b <= pw4 <= rb,
            pw4 == 4 * p.width,
            p == &pages[k as int],
            src == row * pw4,
            dst == yr * rbi,
            src + pw4 <= p.data@.len(),
            dst + rbi <= len,
            p.data@.len() == dlen,
            len == clen,
            combined@.len() == len,
            rbi == rb > 0,
            yr == y + row,
            y == total_height(pages@.take(k as int)),
            row < pages@[k as int].height,
            k < pages.len(),
            forall|i: int|
                0 <= i < len ==> #[trigger] combined@[i] == if written(i, rbi, yr, b as int) {
                    stitched_at(pages@, i / rbi, i % rbi)
                } else {
                    255u8
                },
        decreases pw4 - b,
    {
        let ghost before = combined@;
        let idx = dst + b;
        combined.set(idx, p.data[src + b]);
        proof {
            lemma_row_col(idx as int, rbi, yr, b as int);
            law_page_row_in_stitched_image(pages@, k as int, row as int, b as int);
            assert forall|i: int| 0 <= i < len implies #[trigger] combined@[i] == if written(
                i,
                rbi,
                yr,
                b + 1,
            ) {
                stitched_at(pages@, i / rbi, i % rbi)
            } else {
                255u8
            } by {
                if i != idx {
                    assert(combined@[i] == before[i]);
                    if i / rbi == yr && i % rbi == b {
                        vstd::arithmetic::div_mod::lemma_fundamental_div_mod(i, rbi);
                        assert(i == yr * rbi + b) by (nonlinear_arith)
                            requires
                                i == rbi * (i / rbi) + i % rbi,
                                i / rbi == yr,
                                i % rbi == b,
                        ;
                    }
                }
            }
        }
        b = b + 1;
    }
    proof {
        assert forall|i: int| 0 <= i < len implies #[trigger] combined@[i] == if written(
            i,
            rbi,
            yr + 1,
            0,
        ) {
            stitched_at(pages@, i / rbi, i % rbi)
        } else {
            255u8
        } by {
            if i / rbi == yr && i % rbi >= pw4 {
                vstd::arithmetic::div_mod::lemma_mod_bound(i, rbi);
                law_page_row_in_stitched_image(pages@, k as int, row as int, i % rbi);
            }
        }
    }
}

/// The 32-bit row offsets of stitching, and the whole buffer, fit: for an
/// image within the pixel limit, the start of its last row (in bytes) fits in
/// `u32` and its size in `usize`.
pub open spec fn stitch_fits(width: nat, height: nat, max_pixels: u64) -> bool {
    width * height <= max_pixels && width > 0 && height > 0 ==> (height - 1) * width * 4
        <= u32::MAX && 4 * width * height <= usize::MAX
}

/// Width and height of the stitched image: the widest page and the sum of
/// the heights, or `None` when the sum does not fit in `u32`.
pub fn stitch_dimensions(pages: &Vec<PageImage>) -> (r: Option<(u32, u32)>)
    ensures
        match r {
            Some((w, h)) => w == max_width(pages@) && h == total_height(pages@),
            None => total_height(pages@) > u32::MAX,
        },
{
    let n = pages.len();
    let mut width: u32 = 0;
    let mut height: u32 = 0;
    let mut k: usize = 0;
    while k < n
        invariant
            k <= n == pages.len(),
            width == max_width(pages@.take(k as int)),
            height == total_height(pages@.take(k as int)),
        decreases n - k,
    {
        proof {
            assert(pages@.take(k + 1) == pages@.take(k as int).push(pages@[k as int]));
            lemma_total_height_push(pages@.take(k as int), pages@[k as int]);
            lemma_max_width_push(pages@.take(k as int), pages@[k as int]);
            lemma_total_height_prefix(pages@, k + 1);
        }
        if pages[k].width > width {
            width = pages[k].width;
        }
        match height.checked_add(pages[k].height) {
            Some(h) => height = h,
            None => return None,
        }
        k = k + 1;
    }
    assert(pages@.take(n as int) == pages@);
    Some((width, height))
}

/// Whether `stitch_fits` holds for these dimensions.
pub fn stitch_fits_check(width: u32, height: u32, max_pixels: u64) -> (r: bool)
    ensures
        r == stitch_fits(width as nat, height as nat, max_pixels),
{
    proof {
        assert(width * height <= u64::MAX) by (nonlinear_arith)
            requires
                width <= u32::MAX,
                height <= u32::MAX,
        ;
    }
    let pixels: u64 = width as u64 * height as u64;
    if pixels <= max_pixels && width > 0 && height > 0 {
        proof {
            assert((height - 1) * width * 4 <= 4 * u32::MAX * u32::MAX) by (nonlinear_arith)
                requires
                    width <= u32::MAX,
                    height <= u32::MAX,
                    height >= 1,
            ;
            assert(4 * width * height <= 4 * u32::MAX * u32::MAX) by (nonlinear_arith)
                requires
                    width <= u32::MAX,
                    height <= u32::MAX,
            ;
        }
        let last_row: u128 = (height as u128 - 1) * width as u128 * 4;
        let bytes: u128 = 4 * width as u128 * height as u128;
        last_row <= u32::MAX as u128 && bytes <= usize::MAX as u128
    } else {
        true
    }
}

/// The error `stitch_pages` reports when the pixel limit is exceeded or the
/// image would be empty.
pub open spec fn stitch_limit_error(pages: Seq<PageImage>, max_pixels: u64, v: Seq<CompileError>) -> bool {
    let w = max_width(pages);
    let h = total_height(pages);
    v.len() == 1 && if w * h > max_pixels {
        is_coded_error(
            v[0],
            ErrorKind::Limit,
            (ErrorCode::TooManyPixels {
                width: w as u32,
                height: h as u32,
                pixels: (w * h) as u64,
                limit: max_pixels,
            }),
        )
    } else {
        (w == 0 || h == 0) && is_coded_error(v[0], ErrorKind::Limit, ErrorCode::ZeroSize)
    }
}

/// The single internal error reporting a failed PNG encoding with `detail`.
pub open spec fn png_failure(v: Seq<CompileError>, detail: Seq<char>) -> bool {
    &&& v.len() == 1
    &&& v[0].kind == ErrorKind::Internal
    &&& v[0].message@ == "PNG encoding failed: "@ + detail
    &&& v[0].span is None
    &&& v[0].hints@.len() == 0
    &&& v[0].code matches Some(ErrorCode::PngEncodingFailed { detail: d }) && d@ == detail
}

/// Checks the pixel limit and stitches the pages vertically, left-aligned,
/// on an opaque white background.
///
/// The byte offsets are those of a 32-bit row arithmetic: the offset of the
/// last row's start must fit in `u32`, and the whole buffer in `usize`.
pub fn stitch_pages(pages: &Vec<PageImage>, max_pixels: u64) -> (r: Result<
    StitchedImage,
    Vec<CompileError>,
>)
    requires
        forall|k: int| 0 <= k < pages@.len() ==> page_ok(#[trigger] pages@[k]),
        total_height(pages@) <= u32::MAX,
        stitch_fits(max_width(pages@), total_height(pages@), max_pixels),
    ensures
        ({
            let w = max_width(pages@);
            let h = total_height(pages@);
            match r {
                Ok(img) => {
                    &&& w * h <= max_pixels
                    &&& w > 0 && h > 0
                    &&& img.width == w && img.height == h
                    &&& is_stitched(pages@, w, h, img.rgba@)
                },
                Err(v) => stitch_limit_error(pages@, max_pixels, v@),
            }
        }),
{
    let n = pages.len();
    let mut total_width: u32 = 0;
    let mut total_h: u32 = 0;
    let mut k: usize = 0;
    while k < n
        invariant
            k <= n == pages.len(),
            total_width == max_width(pages@.take(k as int)),
            total_h == total_height(pages@.take(k as int)),
            total_height(pages@) <= u32::MAX,
        decreases n - k,
    {
        proof {
            assert(pages@.take(k + 1) == pages@.take(k as int).push(pages@[k as int]));
            lemma_total_height_push(pages@.take(k as int), pages@[k as int]);
            lemma_max_width_push(pages@.take(k as int), pages@[k as int]);
            lemma_total_height_prefix(pages@, k + 1);
        }
        if pages[k].width > total_width {
            total_width = pages[k].width;
        }
        total_h = total_h + pages[k].height;
        k = k + 1;
    }
    assert(pages@.take(n as int) == pages@);
    proof {
        assert(total_width * total_h <= u64::MAX) by (nonlinear_arith)
            requires
                total_width <= u32::MAX,
                total_h <= u32::MAX,
        ;
    }
    let total_pixels: u64 = total_width as u64 * total_h as u64;
    if total_pixels > max_pixels {
        return Err(
            vec![
                CompileError::limit(
                    ErrorCode::TooManyPixels {
                        width: total_width,
                        height: total_h,
                        pixels: total_pixels,
                        limit: max_pixels,
                    },
                ),
            ],
        );
    }
    if total_width == 0 || total_h == 0 {
        return Err(vec![CompileError::limit(ErrorCode::ZeroSize)]);
    }
    proof {
        assert(4 * total_width <= usize::MAX) by (nonlinear_arith)
            requires
                4 * total_width * total_h <= usize::MAX,
                total_h > 0,
        ;
    }
    let rb: usize = total_width as usize * 4;
    proof {
        assert(rb * total_h == 4 * total_width * total_h) by (nonlinear_arith)
            requires
                rb == total_width * 4,
        ;
    }
    let len: usize = rb * total_h as usize;
    let mut combined: Vec<u8> = vec![255u8; len];
    assert forall|i: int| 0 <= i < len implies #[trigger] combined@[i] == if written(
        i,
        rb as int,
        0,
        0,
    ) {
        stitched_at(pages@, i / (rb as int), i % (rb as int))
    } else {
        255u8
    } by {
        vstd::arithmetic::div_mod::lemma_div_pos_is_pos(i, rb as int);
    }
    let mut y: usize = 0;
    let mut k: usize = 0;
    while k < n
        invariant
            k <= n == pages.len(),
            forall|j: int| 0 <= j < pages@.len() ==> page_ok(#[trigger] pages@[j]),
            y == total_height(pages@.take(k as int)),
            total_height(pages@) == total_h,
            max_width(pages@) == total_width,
            rb == 4 * total_width,
            rb > 0,
            len == rb * total_h,
            combined@.len() == len,
            forall|i: int|
                0 <= i < len ==> #[trigger] combined@[i] == if written(i, rb as int, y as int, 0) {
                    stitched_at(pages@, i / (rb as int), i % (rb as int))
                } else {
                    255u8
                },
        decreases n - k,
    {
        proof {
            assert(pages@.take(k + 1) == pages@.take(k as int).push(pages@[k as int]));
            lemma_total_height_push(pages@.take(k as int), pages@[k as int]);
            lemma_total_height_prefix(pages@, k + 1);
            lemma_max_width_bound(pages@, k as int);
        }
        let h = pages[k].height as usize;
        let mut row: usize = 0;
        while row < h
            invariant
                row <= h == pages@[k as int].height,
                k < n == pages.len(),
                forall|j: int| 0 <= j < pages@.len() ==> page_ok(#[trigger] pages@[j]),
                y == total_height(pages@.take(k as int)),
                y + h <= total_h,
                rb == 4 * total_width,
                4 * pages@[k as int].width <= rb,
                rb > 0,
                len == rb * total_h,
                combined@.len() == len,
                forall|i: int|
                    0 <= i < len ==> #[trigger] combined@[i] == if written(
                        i,
                        rb as int,
                        y + row,
                        0,
                    ) {
                        stitched_at(pages@, i / (rb as int), i % (rb as int))
                    } else {
                        255u8
                    },
            decreases h - row,
        {
            proof {
                assert((y + row + 1) * rb <= len) by (nonlinear_arith)
                    requires
                        y + row + 1 <= total_h,
                        len == rb * total_h,
                        rb > 0,
                ;
            }
            copy_row(&mut combined, pages, k, y, row, rb);
            row = row + 1;
        }
        y = y + h;
        k = k + 1;
    }
    assert(pages@.take(n as int) == pages@);
    proof {
        assert forall|i: int| 0 <= i < len implies #[trigger] combined@[i] == stitched_at(
            pages@,
            i / (4 * total_width as int),
            i % (4 * total_width as int),
        ) by {
            vstd::arithmetic::div_mod::lemma_multiply_divide_lt(i, rb as int, total_h as int);
        }
    }
    Ok(StitchedImage { width: total_width, height: total_h, rgba: combined })
}

proof fn lemma_total_height_prefix(s: Seq<PageImage>, k: int)
    requires
        0 <= k <= s.len(),
    ensures
        total_height(s.take(k)) <= total_height(s),
    decreases s.len() - k,
{
    if k < s.len() {
        lemma_total_height_prefix(s, k + 1);
        assert(s.take(k + 1) == s.take(k).push(s[k]));
        lemma_total_height_push(s.take(k), s[k]);
    } else {
        assert(s.take(k) == s);
    }
}


/// Successful render result: PNG bytes, rendered page count, and any warnings
/// the compiler produced along the way.
pub struct RenderOk {
    pub png: Vec<u8>,
    pub pages: usize,
    pub warnings: Vec<CompileError>,
}

/// What the `image` crate's PNG encoder produces for 8-bit RGBA pixels of the
/// given size: the encoded file, or the text of its error.
pub uninterp spec fn png_rgba8_encoding(rgba: Seq<u8>, width: u32, height: u32) -> Result<
    Seq<u8>,
    Seq<char>,
>;

/// Calls `PngEncoder::write_image` (`image` crate) on 8-bit RGBA pixels and
/// returns the encoded bytes, or the `Display` text of the `ImageError`; both
/// are named by `png_rgba8_encoding`. The encoder asserts that the buffer
/// holds exactly four bytes per pixel, which `requires` states.
#[verifier::external_body]
fn encode_png(rgba: &Vec<u8>, width: u32, height: u32) -> (r: Result<Vec<u8>, String>)
    requires
        rgba@.len() == 4 * (width as int) * (height as int),
    ensures
        match r {
            Ok(png) => png_rgba8_encoding(rgba@, width, height) == Ok::<Seq<u8>, Seq<char>>(png@),
            Err(e) => png_rgba8_encoding(rgba@, width, height) == Err::<Seq<u8>, Seq<char>>(e@),
        },
{
    let mut png_bytes = Vec::new();
    let encoder = image::codecs::png::PngEncoder::new(&mut png_bytes);
    match encoder.write_image(rgba, width, height, image::ExtendedColorType::Rgba8) {
        Ok(()) => Ok(png_bytes),
        Err(e) => Err(e.to_string()),
    }
}

/// Everything that follows rendering: the pixel limit, stitching, and PNG
/// encoding of the stitched image.
pub fn finish_render(pages: &Vec<PageImage>, max_pixels: u64, warnings: Vec<CompileError>) -> (r:
    Result<RenderOk, Vec<CompileError>>)
    requires
        forall|k: int| 0 <= k < pages@.len() ==> page_ok(#[trigger] pages@[k]),
        total_height(pages@) <= u32::MAX,
        stitch_fits(max_width(pages@), total_height(pages@), max_pixels),
    ensures
        ({
            let w = max_width(pages@);
            let h = total_height(pages@);
            if w * h > max_pixels || w == 0 || h == 0 {
                r matches Err(v) && stitch_limit_error(pages@, max_pixels, v@)
            } else {
                exists|rgba: Seq<u8>|
                    #![trigger png_rgba8_encoding(rgba, w as u32, h as u32)]
                    is_stitched(pages@, w, h, rgba) && match png_rgba8_encoding(
                        rgba,
                        w as u32,
                        h as u32,
                    ) {
                        Ok(png) => r matches Ok(ok) && ok.png@ == png && ok.pages == pages@.len()
                            && ok.warnings == warnings,
                        Err(e) => r matches Err(v) && png_failure(v@, e),
                    }
            }
        }),
{
    let img = match stitch_pages(pages, max_pixels) {
        Ok(img) => img,
        Err(e) => return Err(e),
    };
    let ghost rgba = img.rgba@;
    let encoded = encode_png(&img.rgba, img.width, img.height);
    let r = match encoded {
        Ok(png) => Ok(RenderOk { png, pages: pages.len(), warnings }),
        Err(detail) => Err(
            vec![CompileError::internal(ErrorCode::PngEncodingFailed { detail })],
        ),
    };
    assert(is_stitched(pages@, img.width as nat, img.height as nat, rgba));
    assert(png_rgba8_encoding(rgba, img.width, img.height) == png_rgba8_encoding(
        rgba,
        max_width(pages@) as u32,
        total_height(pages@) as u32,
    ));
    r
}

} // verus!
