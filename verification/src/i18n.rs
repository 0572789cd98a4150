//! Bilingual (Chinese/English) text support.
//!
//! Language detection priority:
//! 1. `TSW_LANG` environment variable (explicit override)
//! 2. Standard `LANG` environment variable (system locale)
//! 3. Default to English
//!
//! The environment is read by the caller; the functions here decide from the
//! values it found.
use vstd::prelude::*;
use crate::text::{chars_of, decimal, opt_chars, push_decimal, push_str, str_equal};

verus! {

/// Language of user-facing text.
#[derive(Debug, Clone, Copy, PartialEq, Eq, Structural)]
pub enum Lang {
    En,
    Zh,
}

/// What `str::to_lowercase` returns for `s` (full Unicode lowercase mapping).
pub uninterp spec fn lowercase(s: Seq<char>) -> Seq<char>;

/// Calls `str::to_lowercase`; its result is named `lowercase`.
#[verifier::external_body]
fn to_lowercase(s: &str) -> (r: String)
    ensures
        r@ == lowercase(s@),
{
    s.to_lowercase()
}

/// The language an explicit, already lowercased override names.
pub open spec fn override_lang(lowered: Seq<char>) -> Lang {
    if lowered == "zh"@ || lowered == "zh_cn"@ || lowered == "zh_tw"@ || lowered == "chinese"@ {
        Lang::Zh
    } else {
        Lang::En
    }
}

/// The language of a system locale: Chinese when it starts with `zh`.
pub open spec fn locale_lang(locale: Seq<char>) -> Lang {
    if "zh"@.is_prefix_of(locale) {
        Lang::Zh
    } else {
        Lang::En
    }
}

/// The language chosen from the values of `TSW_LANG` and `LANG`.
pub open spec fn detected_lang(tsw_lang: Option<Seq<char>>, lang: Option<Seq<char>>) -> Lang {
    match tsw_lang {
        Some(v) => override_lang(lowercase(v)),
        None => match lang {
            Some(l) => locale_lang(l),
            None => Lang::En,
        },
    }
}

/// The language that a lowercased `TSW_LANG` value selects.
pub fn lang_for_override(lowered: &str) -> (r: Lang)
    ensures
        r == override_lang(lowered@),
{
    if str_equal(lowered, "zh") || str_equal(lowered, "zh_cn") || str_equal(lowered, "zh_tw")
        || str_equal(lowered, "chinese") {
        Lang::Zh
    } else {
        Lang::En
    }
}

/// The language of a `LANG` locale value.
pub fn lang_for_locale(locale: &str) -> (r: Lang)
    ensures
        r == locale_lang(locale@),
{
    let v = chars_of(locale);
    proof {
        reveal_strlit("zh");
    }
    if v.len() >= 2 && v[0] == 'z' && v[1] == 'h' {
        assert("zh"@.is_prefix_of(locale@));
        Lang::Zh
    } else {
        assert(!"zh"@.is_prefix_of(locale@)) by {
            if "zh"@.is_prefix_of(locale@) {
                assert(locale@[0] == "zh"@[0]);
                assert(locale@[1] == "zh"@[1]);
            }
        }
        Lang::En
    }
}

/// How the language is chosen. A `TSW_LANG` value decides alone, whatever
/// `LANG` holds: Chinese exactly when its lowercase form is `zh`, `zh_cn`,
/// `zh_tw` or `chinese`, English for any other value. Without it, a `LANG`
/// locale whose first two characters are `z`, `h` selects Chinese and any
/// other locale English; with neither, the language is English.
pub proof fn law_language_choice(tsw_lang: Option<Seq<char>>, lang: Option<Seq<char>>)
    ensures
        tsw_lang is Some ==> ((detected_lang(tsw_lang, lang) == Lang::Zh) <==> ({
            let low = lowercase(tsw_lang->0);
            ||| low =~= seq!['z', 'h']
            ||| low =~= seq!['z', 'h', '_', 'c', 'n']
            ||| low =~= seq!['z', 'h', '_', 't', 'w']
            ||| low =~= seq!['c', 'h', 'i', 'n', 'e', 's', 'e']
        })),
        tsw_lang is Some ==> detected_lang(tsw_lang, lang) == detected_lang(tsw_lang, None),
        tsw_lang is None && lang is Some ==> ((detected_lang(tsw_lang, lang) == Lang::Zh) <==> ({
            let l = lang->0;
            l.len() >= 2 && l[0] == 'z' && l[1] == 'h'
        })),
        tsw_lang is None && lang is None ==> detected_lang(tsw_lang, lang) == Lang::En,
{
    reveal_strlit("zh");
    reveal_strlit("zh_cn");
    reveal_strlit("zh_tw");
    reveal_strlit("chinese");
    assert("zh"@ =~= seq!['z', 'h']);
    assert("zh_cn"@ =~= seq!['z', 'h', '_', 'c', 'n']);
    assert("zh_tw"@ =~= seq!['z', 'h', '_', 't', 'w']);
    assert("chinese"@ =~= seq!['c', 'h', 'i', 'n', 'e', 's', 'e']);
    if let Some(l) = lang {
        if tsw_lang is None {
            if l.len() >= 2 && l[0] == 'z' && l[1] == 'h' {
                assert("zh"@.is_prefix_of(l));
            } else if "zh"@.is_prefix_of(l) {
                assert(l[0] == "zh"@[0] && l[1] == "zh"@[1]);
            }
        }
    }
}

/// Detect the user's preferred language from the values of the `TSW_LANG`
/// and `LANG` environment variables (`None` where unset).
pub fn detect_lang(tsw_lang: Option<&str>, lang: Option<&str>) -> (r: Lang)
    ensures
        r == detected_lang(opt_chars(tsw_lang), opt_chars(lang)),
{
    match tsw_lang {
        Some(v) => {
            let lowered = to_lowercase(v);
            lang_for_override(lowered.as_str())
        },
        None => match lang {
            Some(l) => lang_for_locale(l),
            None => Lang::En,
        },
    }
}

/// "error: {description}: {detail}", localized.
pub open spec fn error_text(lang: Lang, description: Seq<char>, detail: Seq<char>) -> Seq<char> {
    match lang {
        Lang::En => "error: "@ + description + ": "@ + detail,
        Lang::Zh => "错误："@ + description + "："@ + detail,
    }
}

/// Format an error with description and detail: "error: {description}: {detail}"
pub fn fmt_error(lang: Lang, description: &str, detail: &str) -> (r: String)
    ensures
        r@ == error_text(lang, description@, detail@),
{
    let mut r = String::new();
    match lang {
        Lang::En => {
            push_str(&mut r, "error: ");
            push_str(&mut r, description);
            push_str(&mut r, ": ");
            push_str(&mut r, detail);
        },
        Lang::Zh => {
            push_str(&mut r, "错误：");
            push_str(&mut r, description);
            push_str(&mut r, "：");
            push_str(&mut r, detail);
        },
    }
    r
}

/// The input-too-large message, localized.
pub open spec fn input_too_large_text(lang: Lang, size: nat, limit: nat) -> Seq<char> {
    match lang {
        Lang::En => "error: input too large: "@ + decimal(size) + " bytes (limit: "@ + decimal(limit)
            + ")"@,
        Lang::Zh => "错误：输入过大："@ + decimal(size) + " 字节（限制："@ + decimal(limit) + "）"@,
    }
}

/// Format an input-too-large error with concrete sizes.
pub fn fmt_input_too_large(lang: Lang, size: usize, limit: usize) -> (r: String)
    ensures
        r@ == input_too_large_text(lang, size as nat, limit as nat),
{
    let mut r = String::new();
    match lang {
        Lang::En => {
            push_str(&mut r, "error: input too large: ");
            push_decimal(&mut r, size as u64);
            push_str(&mut r, " bytes (limit: ");
            push_decimal(&mut r, limit as u64);
            push_str(&mut r, ")");
        },
        Lang::Zh => {
            push_str(&mut r, "错误：输入过大：");
            push_decimal(&mut r, size as u64);
            push_str(&mut r, " 字节（限制：");
            push_decimal(&mut r, limit as u64);
            push_str(&mut r, "）");
        },
    }
    r
}

/// The one-line success summary of interactive mode, localized.
pub open spec fn compile_ok_text(lang: Lang, pages: nat, bytes: nat, path: Seq<char>) -> Seq<
    char,
> {
    match lang {
        Lang::En => "OK: "@ + decimal(pages) + " page(s), "@ + decimal(bytes) + " bytes -> "@ + path,
        Lang::Zh => "成功: "@ + decimal(pages) + " 页，"@ + decimal(bytes) + " 字节 -> "@ + path,
    }
}

/// Interactive mode: one-line success summary after writing the preview PNG;
/// `path` is the displayed path of the preview file.
pub fn format_compile_ok(lang: Lang, pages: usize, bytes: usize, path: &str) -> (r: String)
    ensures
        r@ == compile_ok_text(lang, pages as nat, bytes as nat, path@),
{
    let mut r = String::new();
    match lang {
        Lang::En => {
            push_str(&mut r, "OK: ");
            push_decimal(&mut r, pages as u64);
            push_str(&mut r, " page(s), ");
            push_decimal(&mut r, bytes as u64);
            push_str(&mut r, " bytes -> ");
            push_str(&mut r, path);
        },
        Lang::Zh => {
            push_str(&mut r, "成功: ");
            push_decimal(&mut r, pages as u64);
            push_str(&mut r, " 页，");
            push_decimal(&mut r, bytes as u64);
            push_str(&mut r, " 字节 -> ");
            push_str(&mut r, path);
        },
    }
    r
}

} // verus!
