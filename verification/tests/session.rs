use typst_stdio_worker::i18n::{detect_lang, fmt_error, fmt_input_too_large, format_compile_ok, Lang};
use typst_stdio_worker::packages::{may_download, relative_path_allowed, PathPart};
use typst_stdio_worker::protocol::{OutputFormat, ReadOutcome, Request, TemplateStr};
use typst_stdio_worker::render::{CompileError, ErrorCode, ErrorKind, ErrorSpan, RenderOk};
use typst_stdio_worker::session::{
    compile_response, diag_lines, input_size_error, interactive_line, worker_action,
    CompilationCounter, LineAction, WorkerAction,
};
use typst_stdio_worker::strings::{dlg_label_error, help_scale, log_template_internal_error};
use typst_stdio_worker::template::TemplateKind;

fn request(stitch: bool, max_pages: Option<usize>) -> Request {
    Request {
        id: Some("test-42".into()),
        source: "Hi".into(),
        template: TemplateStr::Quiconf,
        scale_bits: 2.0f32.to_bits(),
        max_pages,
        format: OutputFormat::Png,
        stitch,
    }
}

#[test]
fn worker_stops_at_eof() {
    assert!(matches!(worker_action(ReadOutcome::Eof, 1), WorkerAction::Stop));
}

#[test]
fn worker_answers_protocol_errors() {
    match worker_action(ReadOutcome::Protocol("invalid JSON: x".into()), 1) {
        WorkerAction::Reply(resp) => {
            assert!(!resp.ok);
            assert!(resp.id.is_none());
            let errors = resp.errors.unwrap();
            assert_eq!(errors[0].kind, ErrorKind::Protocol);
            assert_eq!(errors[0].message, "invalid JSON: x");
        }
        other => panic!("expected Reply, got {:?}", other),
    }
}

#[test]
fn worker_rejects_stitch_false() {
    match worker_action(ReadOutcome::Request(request(false, None)), 1) {
        WorkerAction::Reply(resp) => {
            assert!(!resp.ok);
            assert_eq!(resp.id.as_deref(), Some("test-42"));
            let errors = resp.errors.unwrap();
            assert_eq!(errors[0].kind, ErrorKind::Internal);
            assert_eq!(errors[0].message, "stitch=false is not yet supported by this worker");
        }
        other => panic!("expected Reply, got {:?}", other),
    }
}

#[test]
fn worker_compiles_with_request_or_default_page_limit() {
    match worker_action(ReadOutcome::Request(request(true, None)), 7) {
        WorkerAction::Compile(job) => {
            assert_eq!(job.max_pages, 7);
            assert_eq!(job.template, TemplateKind::Quiconf);
            assert_eq!(job.id.as_deref(), Some("test-42"));
            assert_eq!(job.source, "Hi");
            assert_eq!(f32::from_bits(job.scale_bits), 2.0);
        }
        other => panic!("expected Compile, got {:?}", other),
    }
    match worker_action(ReadOutcome::Request(request(true, Some(50))), 7) {
        WorkerAction::Compile(job) => assert_eq!(job.max_pages, 50),
        other => panic!("expected Compile, got {:?}", other),
    }
}

#[test]
fn worker_echoes_request_id() {
    let ok = RenderOk { png: b"png".to_vec(), pages: 2, warnings: Vec::new() };
    let resp = compile_response(Some("test-42".into()), OutputFormat::Png, Ok(ok));
    assert!(resp.ok);
    assert_eq!(resp.id.as_deref(), Some("test-42"));
    assert_eq!(resp.pages, Some(2));
    assert_eq!(resp.data.as_deref(), Some("cG5n"));
    let resp = compile_response(None, OutputFormat::Png, Err(vec![CompileError::limit(ErrorCode::NoPages)]));
    assert!(!resp.ok);
    assert!(resp.id.is_none());
}

#[test]
fn worker_mode_max_compilations() {
    let mut counter = CompilationCounter::new(2);
    assert!(!counter.record());
    assert!(counter.record());
    assert_eq!(counter.count, 2);
    let mut unlimited = CompilationCounter::new(0);
    for _ in 0..10 {
        assert!(!unlimited.record());
    }
}

#[test]
fn interactive_lines() {
    assert!(matches!(interactive_line("   \n", 10, Lang::En), LineAction::Prompt));
    match interactive_line("  Hello \n", 10, Lang::En) {
        LineAction::Compile(s) => assert_eq!(s, "Hello"),
        other => panic!("expected Compile, got {:?}", other),
    }
    match interactive_line("0123456789ab\n", 10, Lang::En) {
        LineAction::Reject(m) => assert_eq!(m, "error: input too large: 12 bytes (limit: 10)"),
        other => panic!("expected Reject, got {:?}", other),
    }
}

#[test]
fn input_size_counts_bytes() {
    assert!(input_size_error("中文", 6, Lang::En).is_none());
    assert_eq!(
        input_size_error("中文", 5, Lang::Zh).as_deref(),
        Some("错误：输入过大：6 字节（限制：5）")
    );
}

#[test]
fn diagnostic_lines() {
    let diag = CompileError {
        kind: ErrorKind::Compile,
        message: "unknown variable: x".into(),
        span: Some(ErrorSpan { line: 1, column: 2 }),
        hints: vec!["try this".into()],
        code: None,
    };
    assert_eq!(
        diag_lines(&diag, Lang::En),
        vec!["error:1:2: unknown variable: x".to_string(), "  hint: try this".to_string()]
    );
    let warn = CompileError {
        kind: ErrorKind::Warning,
        message: "w".into(),
        span: None,
        hints: vec![],
        code: None,
    };
    assert_eq!(diag_lines(&warn, Lang::Zh), vec!["警告: w".to_string()]);
    let coded = CompileError::limit(ErrorCode::TooManyPages { actual: 3, limit: 2 });
    assert_eq!(diag_lines(&coded, Lang::Zh), vec!["错误: 文档有 3 页，超过限制 2 页".to_string()]);
}

#[test]
fn language_detection() {
    assert_eq!(detect_lang(Some("ZH_CN"), None), Lang::Zh);
    assert_eq!(detect_lang(Some("Chinese"), Some("en_US")), Lang::Zh);
    assert_eq!(detect_lang(Some("en"), Some("zh_CN.UTF-8")), Lang::En);
    assert_eq!(detect_lang(None, Some("zh_CN.UTF-8")), Lang::Zh);
    assert_eq!(detect_lang(None, Some("en_US.UTF-8")), Lang::En);
    assert_eq!(detect_lang(None, None), Lang::En);
}

#[test]
fn formatted_messages() {
    assert_eq!(fmt_error(Lang::En, "failed to read stdin", "boom"), "error: failed to read stdin: boom");
    assert_eq!(fmt_error(Lang::Zh, "读取标准输入失败", "x"), "错误：读取标准输入失败：x");
    assert_eq!(fmt_input_too_large(Lang::En, 2000, 1024), "error: input too large: 2000 bytes (limit: 1024)");
    assert_eq!(
        format_compile_ok(Lang::En, 1, 2048, "/tmp/p.png"),
        "OK: 1 page(s), 2048 bytes -> /tmp/p.png"
    );
    assert_eq!(format_compile_ok(Lang::Zh, 0, 7, "p"), "成功: 0 页，7 字节 -> p");
}

#[test]
fn bilingual_strings() {
    assert_eq!(help_scale(Lang::En), "PNG pixel scale factor");
    assert_eq!(help_scale(Lang::Zh), "PNG 像素缩放因子");
    assert_eq!(dlg_label_error(Lang::En), "error");
    assert_eq!(log_template_internal_error(Lang::En), "template internal error");
}

#[test]
fn package_path_rules() {
    assert!(relative_path_allowed(&vec![PathPart::Normal, PathPart::CurDir, PathPart::Normal]));
    assert!(relative_path_allowed(&vec![]));
    assert!(!relative_path_allowed(&vec![PathPart::Normal, PathPart::ParentDir]));
    assert!(!relative_path_allowed(&vec![PathPart::RootDir]));
    assert!(may_download(true, "preview", true));
    assert!(!may_download(true, "local", true));
    assert!(!may_download(false, "preview", true));
    assert!(!may_download(true, "preview", false));
    assert!(!may_download(true, "previews", true));
}
