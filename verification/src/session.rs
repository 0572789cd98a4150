//! The decisions of the three modes (worker, interactive, pipe): what to do
//! with each request or input line, what to answer, and when to stop. The
//! caller performs the reading, compiling and writing.
use vstd::prelude::*;
use vstd::utf8::encode_utf8;
use crate::i18n::{Lang, fmt_input_too_large, input_too_large_text};
use crate::protocol::{OutputFormat, ReadOutcome, Response, base64_standard, template_kind_of};
use crate::render::{CompileError, ErrorCode, ErrorKind, RenderOk, is_coded_error};
use crate::strings::{dlg_hint_prefix, dlg_label_error, dlg_label_warning};
use crate::template::TemplateKind;
use crate::text::{chars_of, decimal, push_decimal, push_str, string_of_range, trim, trim_bounds, views};

verus! {

/// The mode the program runs in.
#[derive(Debug, Clone, Copy, PartialEq, Eq, Structural)]
pub enum Command {
    /// Long-running NDJSON worker (stdin/stdout protocol).
    Worker {
        /// Exit after N compilations (0 = unlimited).
        max_compilations: u64,
    },
    /// Interactive REPL: type source, Enter to compile.
    Interactive {
        /// Open the rendered PNG with xdg-open after compilation.
        open: bool,
        /// Template to apply.
        template: TemplateKind,
        /// Exit after N compilations (0 = unlimited).
        max_compilations: u64,
    },
    /// One-shot pipe mode: stdin -> compile -> stdout PNG.
    Pipe {
        /// Template to apply.
        template: TemplateKind,
    },
}

/// Counts compilations against an optional maximum (0 = unlimited).
pub struct CompilationCounter {
    pub count: u64,
    pub max: u64,
}

impl CompilationCounter {
    pub fn new(max: u64) -> (r: Self)
        ensures
            r.count == 0,
            r.max == max,
    {
        CompilationCounter { count: 0, max }
    }

    /// Records one compilation; returns whether the maximum is now reached.
    pub fn record(&mut self) -> (stop: bool)
        requires
            old(self).count < u64::MAX,
        ensures
            final(self).count == old(self).count + 1,
            final(self).max == old(self).max,
            stop == (final(self).max > 0 && final(self).count >= final(self).max),
    {
        self.count = self.count + 1;
        self.max > 0 && self.count >= self.max
    }
}

/// A limited session never compiles more than its maximum: one that starts
/// below the maximum stops exactly when the count reaches it.
pub proof fn law_counter_stops_at_max(count: u64, max: u64)
    requires
        max > 0,
        count < max,
    ensures
        (max > 0 && count + 1 >= max) <==> count + 1 == max,
{
}

/// A compilation the worker performs for a request.
#[derive(Debug)]
pub struct CompileJob {
    pub id: Option<String>,
    pub template: TemplateKind,
    pub source: String,
    /// Bits of the `f32` PNG pixel scale.
    pub scale_bits: u32,
    pub max_pages: usize,
    pub format: OutputFormat,
}

/// `resp` is a failure carrying exactly one error, which satisfies `p`.
pub open spec fn only_error(resp: Response, p: spec_fn(CompileError) -> bool) -> bool {
    &&& !resp.ok
    &&& resp.format is None
    &&& resp.data is None
    &&& resp.pages is None
    &&& resp.warnings is None
    &&& match resp.errors {
        Some(errs) => errs@.len() == 1 && p(errs@[0]),
        None => false,
    }
}

/// The internal error refusing `stitch=false`.
pub open spec fn is_unsupported_stitch(e: CompileError) -> bool {
    &&& e.kind == ErrorKind::Internal
    &&& e.message@ == "stitch=false"@ + " is not yet supported by this worker"@
    &&& e.span is None
    &&& e.hints@.len() == 0
    &&& match e.code {
        Some(ErrorCode::Unsupported { feature }) => feature@ == "stitch=false"@,
        _ => false,
    }
}

/// What the worker does after reading a request.
#[derive(Debug)]
pub enum WorkerAction {
    /// Input closed: shut down.
    Stop,
    /// Write this response and read the next request.
    Reply(Response),
    /// Compile, answer, and count the compilation.
    Compile(CompileJob),
}

/// The worker's decision on what reading a request gave: stop at end of
/// input, answer protocol errors and requests that do not stitch pages with
/// a failure, and compile the others with the request's page limit or the
/// default one.
pub fn worker_action(outcome: ReadOutcome, default_max_pages: usize) -> (r: WorkerAction)
    ensures
        match outcome {
            ReadOutcome::Eof => r matches WorkerAction::Stop,
            ReadOutcome::Protocol(msg) => match r {
                WorkerAction::Reply(resp) => resp.id is None && only_error(
                    resp,
                    |e: CompileError| is_coded_error(e, ErrorKind::Protocol, (ErrorCode::ProtocolError { detail: msg })),
                ),
                _ => false,
            },
            ReadOutcome::Request(req) => if !req.stitch {
                match r {
                    WorkerAction::Reply(resp) => resp.id == req.id && only_error(
                        resp,
                        |e: CompileError| is_unsupported_stitch(e),
                    ),
                    _ => false,
                }
            } else {
                match r {
                    WorkerAction::Compile(job) => {
                        &&& job.id == req.id
                        &&& job.template == template_kind_of(req.template)
                        &&& job.source == req.source
                        &&& job.scale_bits == req.scale_bits
                        &&& job.format == req.format
                        &&& job.max_pages == match req.max_pages {
                            Some(m) => m,
                            None => default_max_pages,
                        }
                    },
                    _ => false,
                }
            },
        },
{
    match outcome {
        ReadOutcome::Eof => WorkerAction::Stop,
        ReadOutcome::Protocol(msg) => WorkerAction::Reply(
            Response::failure(
                None,
                vec![CompileError::protocol(ErrorCode::ProtocolError { detail: msg })],
            ),
        ),
        ReadOutcome::Request(req) => {
            if !req.stitch {
                let feature = "stitch=false".to_owned();
                WorkerAction::Reply(
                    Response::failure(
                        req.id,
                        vec![CompileError::internal(ErrorCode::Unsupported { feature })],
                    ),
                )
            } else {
                let template = TemplateKind::from(&req.template);
                let max_pages = match req.max_pages {
                    Some(m) => m,
                    None => default_max_pages,
                };
                WorkerAction::Compile(
                    CompileJob {
                        id: req.id,
                        template,
                        source: req.source,
                        scale_bits: req.scale_bits,
                        max_pages,
                        format: req.format,
                    },
                )
            }
        },
    }
}

/// The response to a compilation: the image and warnings on success, the
/// errors otherwise; the request's id either way.
pub fn compile_response(
    id: Option<String>,
    format: OutputFormat,
    result: Result<RenderOk, Vec<CompileError>>,
) -> (r: Response)
    requires
        result matches Ok(ok) ==> 4 * ((ok.png@.len() + 2) / 3) <= usize::MAX,
    ensures
        r.id == id,
        r.ok == result is Ok,
        match result {
            Ok(ok) => {
                &&& r.format == Some(format)
                &&& r.pages == Some(ok.pages)
                &&& r.data matches Some(d) && d@ == base64_standard(ok.png@)
                &&& r.errors is None
                &&& r.warnings == if ok.warnings@.len() == 0 {
                    None
                } else {
                    Some(ok.warnings)
                }
            },
            Err(errors) => {
                &&& r.errors == Some(errors)
                &&& r.format is None
                &&& r.data is None
                &&& r.pages is None
                &&& r.warnings is None
            },
        },
{
    match result {
        Ok(ok) => Response::success(id, format, ok.png.as_slice(), ok.pages, ok.warnings),
        Err(errors) => Response::failure(id, errors),
    }
}

/// Number of bytes of the UTF-8 encoding of `s`, as `str::len` reports it.
pub open spec fn byte_len(s: Seq<char>) -> nat {
    (encode_utf8(s).len() as usize) as nat
}

/// The message for an input of more than `max_input_size` bytes, if it is one.
pub fn input_size_error(input: &str, max_input_size: usize, lang: Lang) -> (r: Option<String>)
    ensures
        r is Some <==> byte_len(input@) > max_input_size,
        r matches Some(m) ==> m@ == input_too_large_text(
            lang,
            byte_len(input@),
            max_input_size as nat,
        ),
{
    let n = input.len();
    if n > max_input_size {
        Some(fmt_input_too_large(lang, n, max_input_size))
    } else {
        None
    }
}

/// What the interactive mode does with one input line.
#[derive(Debug)]
pub enum LineAction {
    /// Blank line: prompt again.
    Prompt,
    /// Print this message and prompt again.
    Reject(String),
    /// Compile this (trimmed) source.
    Compile(String),
}

/// The interactive mode's decision on one input line: it is trimmed, a blank
/// line prompts again, an input over the size limit is refused with a
/// message, and anything else is compiled.
pub fn interactive_line(line: &str, max_input_size: usize, lang: Lang) -> (r: LineAction)
    ensures
        match r {
            LineAction::Prompt => trim(line@).len() == 0,
            LineAction::Reject(m) => {
                &&& trim(line@).len() > 0
                &&& byte_len(trim(line@)) > max_input_size
                &&& m@ == input_too_large_text(lang, byte_len(trim(line@)), max_input_size as nat)
            },
            LineAction::Compile(s) => {
                &&& trim(line@).len() > 0
                &&& byte_len(trim(line@)) <= max_input_size
                &&& s@ == trim(line@)
            },
        },
{
    let v = chars_of(line);
    let (a, b) = trim_bounds(&v, 0, v.len());
    assert(v@.subrange(0, v.len() as int) == v@);
    if a == b {
        return LineAction::Prompt;
    }
    let input = string_of_range(&v, a, b);
    match input_size_error(input.as_str(), max_input_size, lang) {
        Some(m) => LineAction::Reject(m),
        None => LineAction::Compile(input),
    }
}

/// The first line printed for a diagnostic.
pub open spec fn diag_head(label: Seq<char>, span: Option<crate::render::ErrorSpan>, message: Seq<char>) -> Seq<char> {
    match span {
        Some(s) => label + ":"@ + decimal(s.line as nat) + ":"@ + decimal(s.column as nat) + ": "@
            + message,
        None => label + ": "@ + message,
    }
}

/// The lines that the pipe and interactive modes print for a diagnostic:
/// `label:line:column: message` (or `label: message` without a position),
/// then one line per hint. Worker-generated errors show their code's message
/// in `lang`.
pub fn diag_lines(diag: &CompileError, lang: Lang) -> (r: Vec<String>)
    ensures
        views(r@) == seq![
            diag_head(
                if diag.kind == ErrorKind::Warning {
                    dlg_label_warning(lang)@
                } else {
                    dlg_label_error(lang)@
                },
                diag.span,
                match diag.code {
                    Some(c) => c.localized(lang),
                    None => diag.message@,
                },
            ),
        ] + views(diag.hints@).map_values(|h: Seq<char>| dlg_hint_prefix(lang)@ + h),
{
    let label = match diag.kind {
        ErrorKind::Warning => dlg_label_warning(lang),
        _ => dlg_label_error(lang),
    };
    let message = match &diag.code {
        Some(code) => code.message_local(lang),
        None => {
            let mut m = String::new();
            push_str(&mut m, diag.message.as_str());
            m
        },
    };
    let mut head = String::new();
    push_str(&mut head, label);
    match diag.span {
        Some(span) => {
            push_str(&mut head, ":");
            push_decimal(&mut head, span.line as u64);
            push_str(&mut head, ":");
            push_decimal(&mut head, span.column as u64);
            push_str(&mut head, ": ");
        },
        None => push_str(&mut head, ": "),
    }
    push_str(&mut head, message.as_str());
    let mut out: Vec<String> = Vec::new();
    out.push(head);
    let ghost first = views(out@);
    let mut i: usize = 0;
    while i < diag.hints.len()
        invariant
            i <= diag.hints.len(),
            views(out@) == first + views(diag.hints@).take(i as int).map_values(
                |h: Seq<char>| dlg_hint_prefix(lang)@ + h,
            ),
        decreases diag.hints.len() - i,
    {
        let mut line = String::new();
        push_str(&mut line, dlg_hint_prefix(lang));
        push_str(&mut line, diag.hints[i].as_str());
        let ghost before = views(out@);
        assert(line@ == dlg_hint_prefix(lang)@ + diag.hints@[i as int]@);
        out.push(line);
        assert(views(out@) == before.push(dlg_hint_prefix(lang)@ + diag.hints@[i as int]@));
        assert(views(diag.hints@).take(i + 1) == views(diag.hints@).take(i as int).push(
            diag.hints@[i as int]@,
        ));
        assert(views(diag.hints@).take(i + 1).map_values(
            |h: Seq<char>| dlg_hint_prefix(lang)@ + h,
        ) =~= views(diag.hints@).take(i as int).map_values(
            |h: Seq<char>| dlg_hint_prefix(lang)@ + h,
        ).push(dlg_hint_prefix(lang)@ + diag.hints@[i as int]@));
        assert(views(out@) =~= first + views(diag.hints@).take(i + 1).map_values(
            |h: Seq<char>| dlg_hint_prefix(lang)@ + h,
        ));
        i = i + 1;
    }
    assert(views(diag.hints@).take(diag.hints.len() as int) == views(diag.hints@));
    out
}

} // verus!
