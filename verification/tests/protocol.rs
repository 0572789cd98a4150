use std::io::{BufRead, BufReader, Cursor, Read};

use typst_stdio_worker::protocol::{
    base64_len_fits,
    classify_capped_line, default_stitch, invalid_json_message, read_step, LineRead, OutputFormat,
    ReadOutcome, ReadStep, ReadyMessage, Request, Response, TemplateStr, PROTOCOL_VERSION,
};
use typst_stdio_worker::render::{CompileError, ErrorCode, ErrorKind};
use typst_stdio_worker::template::TemplateKind;

/// Reads one request from `reader` as the worker does: at most `max + 1`
/// bytes of a line, the rest of an unfinished oversized line consumed, blank
/// lines skipped.
fn read_from(reader: &mut impl BufRead, max: usize) -> ReadStep {
    loop {
        let mut buf = Vec::new();
        let mut limited = Read::take(&mut *reader, max as u64 + 1);
        BufRead::read_until(&mut limited, b'\n', &mut buf).unwrap();
        let read = classify_capped_line(buf, max);
        if let Ok(LineRead::Oversized { unfinished: true }) = read {
            let mut sink = Vec::new();
            loop {
                sink.clear();
                let m = reader.read_until(b'\n', &mut sink).unwrap();
                if m == 0 || sink.ends_with(b"\n") {
                    break;
                }
            }
        }
        match read_step(read, max) {
            ReadStep::Skip => continue,
            other => return other,
        }
    }
}

/// One pass of the reading loop over the bytes of one line.
fn step(bytes: &[u8], max: usize) -> ReadStep {
    let read = classify_capped_line(bytes.to_vec(), max);
    read_step(read, max)
}

#[test]
fn read_request_valid_json() {
    match step(b"{\"source\":\"Hello\"}\n", 4096) {
        ReadStep::ParseJson(text) => assert_eq!(text, "{\"source\":\"Hello\"}"),
        other => panic!("expected ParseJson, got {:?}", other),
    }
}

#[test]
fn read_request_eof() {
    assert!(matches!(step(b"", 4096), ReadStep::Finish(ReadOutcome::Eof)));
}

#[test]
fn read_request_skips_blank_lines() {
    assert!(matches!(step(b"\n", 4096), ReadStep::Skip));
    assert!(matches!(step(b"   \n", 4096), ReadStep::Skip));
    assert!(matches!(step(b"\t\r\n", 4096), ReadStep::Skip));
    match step(b"{\"source\":\"ok\"}\n", 4096) {
        ReadStep::ParseJson(text) => assert_eq!(text, "{\"source\":\"ok\"}"),
        other => panic!("expected ParseJson, got {:?}", other),
    }
}

#[test]
fn read_request_invalid_json() {
    let msg = invalid_json_message("expected value at line 1 column 1");
    assert!(msg.contains("invalid JSON"), "msg: {msg}");
    assert_eq!(msg, "invalid JSON: expected value at line 1 column 1");
}

#[test]
fn read_request_oversized_then_recover() {
    let big = "a".repeat(200);
    let input = format!("{{\"source\":\"{big}\"}}\n{{\"source\":\"small\"}}\n");
    let mut reader = BufReader::with_capacity(16, Cursor::new(input.into_bytes()));
    match read_from(&mut reader, 64) {
        ReadStep::Finish(ReadOutcome::Protocol(msg)) => {
            assert!(msg.contains("too large"), "msg: {msg}");
            assert_eq!(msg, "request too large (limit: 64 bytes)");
        }
        other => panic!("expected Protocol, got {:?}", other),
    }
    match read_from(&mut reader, 64) {
        ReadStep::ParseJson(text) => assert_eq!(text, "{\"source\":\"small\"}"),
        other => panic!("expected ParseJson, got {:?}", other),
    }
    assert!(matches!(read_from(&mut reader, 64), ReadStep::Finish(ReadOutcome::Eof)));
}

#[test]
fn oversized_line_ending_at_the_cap_keeps_the_next_request() {
    // "abcd\n" is five bytes: over a cap of 4, yet read up to its newline, so
    // nothing of the next line is consumed.
    let mut reader = BufReader::new(Cursor::new(b"abcd\n{\"source\":\"x\"}\n".to_vec()));
    match read_from(&mut reader, 4) {
        ReadStep::Finish(ReadOutcome::Protocol(msg)) => {
            assert_eq!(msg, "request too large (limit: 4 bytes)")
        }
        other => panic!("expected Protocol, got {:?}", other),
    }
    match read_from(&mut reader, 64) {
        ReadStep::ParseJson(text) => assert_eq!(text, "{\"source\":\"x\"}"),
        other => panic!("expected ParseJson, got {:?}", other),
    }
}

#[test]
fn oversized_line_without_newline_is_unfinished() {
    assert!(matches!(
        classify_capped_line(b"abcde".to_vec(), 4),
        Ok(LineRead::Oversized { unfinished: true })
    ));
}

#[test]
fn read_request_line_at_the_cap() {
    // A line whose bytes including the newline exceed the cap is oversized.
    assert!(matches!(
        classify_capped_line(b"abcd\n".to_vec(), 4),
        Ok(LineRead::Oversized { unfinished: false })
    ));
    assert!(matches!(
        classify_capped_line(b"abcd\n".to_vec(), 5),
        Ok(LineRead::Line(_))
    ));
}

#[test]
fn read_request_non_utf8() {
    let input: &[u8] = &[0x80, 0x81, 0x82, b'\n'];
    match step(input, 4096) {
        ReadStep::Finish(ReadOutcome::Protocol(msg)) => {
            assert!(msg.contains("read stdin"), "msg: {msg}");
            assert!(msg.starts_with("failed to read stdin: "), "msg: {msg}");
        }
        other => panic!("expected Protocol, got {:?}", other),
    }
}

#[test]
fn line_keeps_its_text_untrimmed() {
    match classify_capped_line(b"  x \n".to_vec(), 100) {
        Ok(LineRead::Line(s)) => assert_eq!(s, "  x \n"),
        other => panic!("expected Line, got {:?}", other),
    }
}

#[test]
fn request_defaults() {
    assert!(default_stitch());
    assert_eq!(TemplateStr::default(), TemplateStr::Raw);
    assert_eq!(OutputFormat::default(), OutputFormat::Png);
    let req = Request {
        id: None,
        source: "x".into(),
        template: TemplateStr::default(),
        scale_bits: 4.0f32.to_bits(),
        max_pages: None,
        format: OutputFormat::default(),
        stitch: default_stitch(),
    };
    assert_eq!(f32::from_bits(req.scale_bits), 4.0);
    assert!(req.stitch);
}

#[test]
fn template_names_select_kinds() {
    assert_eq!(TemplateKind::from(&TemplateStr::Raw), TemplateKind::Raw);
    assert_eq!(TemplateKind::from(&TemplateStr::Quiconf), TemplateKind::Quiconf);
    assert_eq!(
        TemplateKind::from(&TemplateStr::DeprecatedDefault),
        TemplateKind::DeprecatedDefault
    );
}

#[test]
fn write_response_success_format() {
    let resp = Response::success(
        Some("req-1".into()),
        OutputFormat::Png,
        b"fakepng",
        3,
        Vec::new(),
    );
    assert!(resp.ok);
    assert_eq!(resp.id.as_deref(), Some("req-1"));
    assert_eq!(resp.format, Some(OutputFormat::Png));
    assert_eq!(resp.pages, Some(3));
    assert_eq!(resp.data.as_deref(), Some("ZmFrZXBuZw=="));
    assert!(resp.errors.is_none());
    assert!(resp.warnings.is_none());
}

#[test]
fn success_keeps_warnings() {
    let w = CompileError::limit(ErrorCode::ZeroSize);
    let resp = Response::success(None, OutputFormat::Png, b"", 1, vec![w]);
    assert_eq!(resp.data.as_deref(), Some(""));
    assert_eq!(resp.warnings.as_ref().map(|w| w.len()), Some(1));
}

#[test]
fn base64_lengths() {
    for (input, expected) in [
        (&b"f"[..], "Zg=="),
        (&b"fo"[..], "Zm8="),
        (&b"foo"[..], "Zm9v"),
        (&b"foob"[..], "Zm9vYg=="),
    ] {
        let resp = Response::success(None, OutputFormat::Png, input, 1, Vec::new());
        assert_eq!(resp.data.as_deref(), Some(expected));
    }
}

#[test]
fn write_response_failure_format() {
    let resp = Response::failure(
        None,
        vec![CompileError::limit(ErrorCode::TooManyPages {
            actual: 3,
            limit: 2,
        })],
    );
    assert!(!resp.ok);
    assert!(resp.id.is_none());
    assert!(resp.data.is_none());
    assert!(resp.format.is_none());
    assert!(resp.pages.is_none());
    let errors = resp.errors.unwrap();
    assert_eq!(errors[0].kind, ErrorKind::Limit);
    assert_eq!(errors[0].message, "document has 3 pages, exceeding limit of 2");
}

#[test]
fn write_ready_format() {
    let msg = ReadyMessage {
        ready: true,
        protocol_version: PROTOCOL_VERSION,
        version: "0.1.0".into(),
        fonts_loaded: 42,
    };
    assert!(msg.ready);
    assert_eq!(msg.protocol_version, 1);
    assert_eq!(msg.version, "0.1.0");
    assert_eq!(msg.fonts_loaded, 42);
}

#[test]
fn base64_length_fits() {
    assert!(base64_len_fits(0));
    assert!(base64_len_fits(1 << 20));
    assert!(!base64_len_fits(usize::MAX));
}
