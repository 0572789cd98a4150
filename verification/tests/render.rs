use typst_stdio_worker::i18n::Lang;
use typst_stdio_worker::render::{
    stitch_dimensions, stitch_fits_check,
    check_page_count, diagnostic_to_message, finish_render, stitch_pages, CompileError, ErrorCode,
    ErrorKind, ErrorSpan, PageImage, Severity,
};

#[test]
fn english_messages() {
    assert_eq!(ErrorCode::NoPages.message_en(), "document produced no pages");
    assert_eq!(
        ErrorCode::TooManyPages { actual: 10, limit: 1 }.message_en(),
        "document has 10 pages, exceeding limit of 1"
    );
    assert_eq!(
        ErrorCode::TooManyPixels { width: 5334, height: 5334, pixels: 28451556, limit: 1000000 }
            .message_en(),
        "rendered image 5334x5334 (28451556 pixels) exceeds limit of 1000000 pixels"
    );
    assert_eq!(ErrorCode::ZeroSize.message_en(), "rendered image has zero size");
    assert_eq!(
        ErrorCode::PngEncodingFailed { detail: "boom".into() }.message_en(),
        "PNG encoding failed: boom"
    );
    assert_eq!(
        ErrorCode::Unsupported { feature: "stitch=false".into() }.message_en(),
        "stitch=false is not yet supported by this worker"
    );
    assert_eq!(ErrorCode::ProtocolError { detail: "bad".into() }.message_en(), "bad");
}

#[test]
fn localized_messages() {
    let code = ErrorCode::TooManyPages { actual: 3, limit: 2 };
    assert_eq!(code.message_local(Lang::En), code.message_en());
    assert_eq!(code.message_local(Lang::Zh), "文档有 3 页，超过限制 2 页");
    assert_eq!(
        ErrorCode::TooManyPixels { width: 2, height: 3, pixels: 6, limit: 5 }.message_local(Lang::Zh),
        "渲染图像 2x3（6 像素）超过限制 5 像素"
    );
    assert_eq!(ErrorCode::NoPages.message_local(Lang::Zh), "文档未生成任何页面");
    assert_eq!(
        ErrorCode::Unsupported { feature: "x".into() }.message_local(Lang::Zh),
        "此工作进程尚不支持 x"
    );
}

#[test]
fn coded_errors_carry_their_code() {
    let e = CompileError::protocol(ErrorCode::ProtocolError { detail: "d".into() });
    assert_eq!(e.kind, ErrorKind::Protocol);
    assert_eq!(e.message, "d");
    assert!(e.span.is_none());
    assert!(e.hints.is_empty());
    assert!(matches!(e.code, Some(ErrorCode::ProtocolError { .. })));
    assert_eq!(CompileError::internal(ErrorCode::ZeroSize).kind, ErrorKind::Internal);
    assert_eq!(CompileError::limit(ErrorCode::ZeroSize).kind, ErrorKind::Limit);
    let e = CompileError::from_code(ErrorKind::Compile, ErrorCode::NoPages);
    assert_eq!(e.kind, ErrorKind::Compile);
    assert_eq!(e.message, "document produced no pages");
}

#[test]
fn diagnostic_in_user_input_is_shifted() {
    let e = diagnostic_to_message(
        Severity::Error,
        Some((true, 12, 5)),
        10,
        "unknown variable: x",
        vec!["hint one".into()],
        Lang::En,
    );
    assert_eq!(e.kind, ErrorKind::Compile);
    assert_eq!(e.span, Some(ErrorSpan { line: 2, column: 5 }));
    assert_eq!(e.message, "unknown variable: x");
    assert_eq!(e.hints, vec!["hint one".to_string()]);
    assert!(e.code.is_none());
}

#[test]
fn diagnostic_in_prelude_is_internal() {
    let e = diagnostic_to_message(Severity::Warning, Some((true, 3, 1)), 10, "oops", vec![], Lang::En);
    assert_eq!(e.kind, ErrorKind::Internal);
    assert_eq!(e.span, Some(ErrorSpan { line: 3, column: 1 }));
    assert_eq!(e.message, "template internal error: oops");
    let z = diagnostic_to_message(Severity::Error, Some((true, 10, 1)), 10, "oops", vec![], Lang::Zh);
    assert_eq!(z.message, "模板内部错误: oops");
}

#[test]
fn diagnostic_in_other_file_or_without_span() {
    let e = diagnostic_to_message(Severity::Warning, Some((false, 3, 4)), 10, "w", vec![], Lang::En);
    assert_eq!(e.kind, ErrorKind::Warning);
    assert_eq!(e.span, Some(ErrorSpan { line: 3, column: 4 }));
    assert_eq!(e.message, "w");
    let e = diagnostic_to_message(Severity::Error, None, 10, "m", vec![], Lang::En);
    assert_eq!(e.kind, ErrorKind::Compile);
    assert!(e.span.is_none());
}

#[test]
fn page_limits() {
    let none = check_page_count(0, 5).unwrap_err();
    assert_eq!(none.len(), 1);
    assert_eq!(none[0].kind, ErrorKind::Limit);
    assert_eq!(none[0].message, "document produced no pages");
    let many = check_page_count(3, 2).unwrap_err();
    assert_eq!(many[0].message, "document has 3 pages, exceeding limit of 2");
    assert!(check_page_count(2, 2).is_ok());
    assert!(check_page_count(1, 2).is_ok());
}

fn page(width: u32, height: u32, fill: u8) -> PageImage {
    PageImage { width, height, data: vec![fill; (width * height * 4) as usize] }
}

#[test]
fn stitching_places_pages_below_each_other() {
    let pages = vec![page(1, 1, 7), page(2, 1, 9)];
    let img = stitch_pages(&pages, 100).ok().unwrap();
    assert_eq!(img.width, 2);
    assert_eq!(img.height, 2);
    assert_eq!(
        img.rgba,
        vec![7, 7, 7, 7, 255, 255, 255, 255, 9, 9, 9, 9, 9, 9, 9, 9]
    );
}

#[test]
fn stitching_keeps_row_order() {
    let p = PageImage { width: 1, height: 2, data: vec![1, 2, 3, 4, 5, 6, 7, 8] };
    let img = stitch_pages(&vec![p], 100).ok().unwrap();
    assert_eq!(img.rgba, vec![1, 2, 3, 4, 5, 6, 7, 8]);
}

#[test]
fn pixel_limit_and_zero_size() {
    let pages = vec![page(3, 2, 0), page(1, 2, 0)];
    let err = stitch_pages(&pages, 11).err().unwrap();
    assert_eq!(err[0].kind, ErrorKind::Limit);
    assert_eq!(
        err[0].message,
        "rendered image 3x4 (12 pixels) exceeds limit of 11 pixels"
    );
    assert!(err[0].message.contains("pixels"));
    assert!(stitch_pages(&pages, 12).is_ok());
    let zero = stitch_pages(&vec![page(0, 3, 0)], 100).err().unwrap();
    assert_eq!(zero[0].message, "rendered image has zero size");
}

#[test]
fn finish_render_encodes_png() {
    let pages = vec![page(2, 2, 128)];
    let ok = finish_render(&pages, 100, vec![]).ok().unwrap();
    assert_eq!(&ok.png[..8], b"\x89PNG\r\n\x1a\n");
    assert_eq!(ok.pages, 1);
    assert!(ok.warnings.is_empty());
    let err = finish_render(&pages, 3, vec![]).err().unwrap();
    assert_eq!(err[0].kind, ErrorKind::Limit);
}

#[test]
fn stitch_dimensions_and_fit() {
    let pages = vec![page(3, 2, 0), page(5, 1, 0)];
    assert_eq!(stitch_dimensions(&pages), Some((5, 3)));
    assert_eq!(stitch_dimensions(&vec![]), Some((0, 0)));
    let tall = vec![
        PageImage { width: 0, height: u32::MAX, data: vec![] },
        PageImage { width: 0, height: 1, data: vec![] },
    ];
    assert_eq!(stitch_dimensions(&tall), None);
    assert!(stitch_fits_check(5, 3, 100));
    assert!(stitch_fits_check(70000, 70000, 1_000_000));
    assert!(!stitch_fits_check(70000, 70000, u64::MAX));
}
