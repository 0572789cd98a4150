//! User-facing text in both languages: help for the command line,
//! messages of the interactive mode, labels of diagnostics, log messages.
use vstd::prelude::*;
use crate::i18n::Lang;

verus! {

// Program-level descriptions

#[verifier::allow_in_spec]
pub fn about(lang: Lang) -> &'static str
    returns
        match lang {
            Lang::En => "Typst compilation worker — renders Typst source to PNG via pipe, interactive REPL, or long-running NDJSON protocol.",
            Lang::Zh => "Typst 编译工作进程 — 通过管道、交互式 REPL 或长连接 NDJSON 协议将 Typst 源码渲染为 PNG。",
        },
{
    match lang {
        Lang::En => "Typst compilation worker — renders Typst source to PNG via pipe, interactive REPL, or long-running NDJSON protocol.",
        Lang::Zh => "Typst 编译工作进程 — 通过管道、交互式 REPL 或长连接 NDJSON 协议将 Typst 源码渲染为 PNG。",
    }
}

#[verifier::allow_in_spec]
pub fn cmd_worker_about(lang: Lang) -> &'static str
    returns
        match lang {
            Lang::En => "Long-running NDJSON worker (stdin/stdout protocol)",
            Lang::Zh => "长连接 NDJSON 工作模式（stdin/stdout 协议）",
        },
{
    match lang {
        Lang::En => "Long-running NDJSON worker (stdin/stdout protocol)",
        Lang::Zh => "长连接 NDJSON 工作模式（stdin/stdout 协议）",
    }
}

#[verifier::allow_in_spec]
pub fn cmd_interactive_about(lang: Lang) -> &'static str
    returns
        match lang {
            Lang::En => "Interactive REPL: type source, press Enter to compile and preview",
            Lang::Zh => "交互式 REPL：输入源码，按回车编译预览",
        },
{
    match lang {
        Lang::En => "Interactive REPL: type source, press Enter to compile and preview",
        Lang::Zh => "交互式 REPL：输入源码，按回车编译预览",
    }
}

#[verifier::allow_in_spec]
pub fn cmd_pipe_about(lang: Lang) -> &'static str
    returns
        match lang {
            Lang::En => "One-shot pipe mode: read stdin, compile, write PNG to stdout",
            Lang::Zh => "单次管道模式：读取 stdin，编译后输出 PNG 到 stdout",
        },
{
    match lang {
        Lang::En => "One-shot pipe mode: read stdin, compile, write PNG to stdout",
        Lang::Zh => "单次管道模式：读取 stdin，编译后输出 PNG 到 stdout",
    }
}

// Argument help

#[verifier::allow_in_spec]
pub fn help_font_path(lang: Lang) -> &'static str
    returns
        match lang {
            Lang::En => "Additional font directories to load (can be repeatedly specified)",
            Lang::Zh => "额外字体目录（可多次指定）",
        },
{
    match lang {
        Lang::En => "Additional font directories to load (can be repeatedly specified)",
        Lang::Zh => "额外字体目录（可多次指定）",
    }
}

#[verifier::allow_in_spec]
pub fn help_package_path(lang: Lang) -> &'static str
    returns
        match lang {
            Lang::En => "Custom path to local packages (TYPST_PACKAGE_PATH; same as typst compile --package-path). CLI overrides env. Resolved before the package cache root.",
            Lang::Zh => "本地包搜索根目录（TYPST_PACKAGE_PATH；与 typst compile --package-path 相同）。命令行优先于环境变量。先于包缓存根目录解析。",
        },
{
    match lang {
        Lang::En => "Custom path to local packages (TYPST_PACKAGE_PATH; same as typst compile --package-path). CLI overrides env. Resolved before the package cache root.",
        Lang::Zh => "本地包搜索根目录（TYPST_PACKAGE_PATH；与 typst compile --package-path 相同）。命令行优先于环境变量。先于包缓存根目录解析。",
    }
}

#[verifier::allow_in_spec]
pub fn help_package_cache_path(lang: Lang) -> &'static str
    returns
        match lang {
            Lang::En => "Custom path to package cache (TYPST_PACKAGE_CACHE_PATH; same as typst compile --package-cache-path). Falls back to $XDG_CACHE_HOME/typst/packages or ~/.cache/typst/packages when unset.",
            Lang::Zh => "包缓存目录（TYPST_PACKAGE_CACHE_PATH；与 typst compile --package-cache-path 相同）。未设置时使用 $XDG_CACHE_HOME/typst/packages 或 ~/.cache/typst/packages。",
        },
{
    match lang {
        Lang::En => "Custom path to package cache (TYPST_PACKAGE_CACHE_PATH; same as typst compile --package-cache-path). Falls back to $XDG_CACHE_HOME/typst/packages or ~/.cache/typst/packages when unset.",
        Lang::Zh => "包缓存目录（TYPST_PACKAGE_CACHE_PATH；与 typst compile --package-cache-path 相同）。未设置时使用 $XDG_CACHE_HOME/typst/packages 或 ~/.cache/typst/packages。",
    }
}

#[verifier::allow_in_spec]
pub fn help_allow_download(lang: Lang) -> &'static str
    returns
        match lang {
            Lang::En => "Allow downloading missing packages from the Typst package registry",
            Lang::Zh => "允许从 Typst 包注册表下载缺失的包",
        },
{
    match lang {
        Lang::En => "Allow downloading missing packages from the Typst package registry",
        Lang::Zh => "允许从 Typst 包注册表下载缺失的包",
    }
}

#[verifier::allow_in_spec]
pub fn help_scale(lang: Lang) -> &'static str
    returns
        match lang {
            Lang::En => "PNG pixel scale factor",
            Lang::Zh => "PNG 像素缩放因子",
        },
{
    match lang {
        Lang::En => "PNG pixel scale factor",
        Lang::Zh => "PNG 像素缩放因子",
    }
}

#[verifier::allow_in_spec]
pub fn help_max_pages(lang: Lang) -> &'static str
    returns
        match lang {
            Lang::En => "Maximum number of pages to render",
            Lang::Zh => "最大渲染页数",
        },
{
    match lang {
        Lang::En => "Maximum number of pages to render",
        Lang::Zh => "最大渲染页数",
    }
}

#[verifier::allow_in_spec]
pub fn help_max_pixels(lang: Lang) -> &'static str
    returns
        match lang {
            Lang::En => "Maximum total pixels (width*height across all pages)",
            Lang::Zh => "最大总像素数（所有页面宽×高之和）",
        },
{
    match lang {
        Lang::En => "Maximum total pixels (width*height across all pages)",
        Lang::Zh => "最大总像素数（所有页面宽×高之和）",
    }
}

#[verifier::allow_in_spec]
pub fn help_max_input_size(lang: Lang) -> &'static str
    returns
        match lang {
            Lang::En => "Maximum input size in bytes",
            Lang::Zh => "最大输入大小（字节）",
        },
{
    match lang {
        Lang::En => "Maximum input size in bytes",
        Lang::Zh => "最大输入大小（字节）",
    }
}

#[verifier::allow_in_spec]
pub fn help_log_level(lang: Lang) -> &'static str
    returns
        match lang {
            Lang::En => "Log level filter",
            Lang::Zh => "日志级别",
        },
{
    match lang {
        Lang::En => "Log level filter",
        Lang::Zh => "日志级别",
    }
}

#[verifier::allow_in_spec]
pub fn help_meter(lang: Lang) -> &'static str
    returns
        match lang {
            Lang::En => "Log aggregate font file bytes (deduplicated) and each rendered PNG size / dimensions",
            Lang::Zh => "记录去重后的字体文件总字节数，以及每次渲染 PNG 的尺寸与编码体积",
        },
{
    match lang {
        Lang::En => "Log aggregate font file bytes (deduplicated) and each rendered PNG size / dimensions",
        Lang::Zh => "记录去重后的字体文件总字节数，以及每次渲染 PNG 的尺寸与编码体积",
    }
}

#[verifier::allow_in_spec]
pub fn help_max_compilations(lang: Lang) -> &'static str
    returns
        match lang {
            Lang::En => "Exit after N compilations (0 = unlimited) [default: 0]",
            Lang::Zh => "编译 N 次后退出（0 = 无限制）[默认: 0]",
        },
{
    match lang {
        Lang::En => "Exit after N compilations (0 = unlimited) [default: 0]",
        Lang::Zh => "编译 N 次后退出（0 = 无限制）[默认: 0]",
    }
}

#[verifier::allow_in_spec]
pub fn help_open(lang: Lang) -> &'static str
    returns
        match lang {
            Lang::En => "Open the rendered PNG with xdg-open after each compilation",
            Lang::Zh => "每次编译后使用 xdg-open 打开渲染的 PNG",
        },
{
    match lang {
        Lang::En => "Open the rendered PNG with xdg-open after each compilation",
        Lang::Zh => "每次编译后使用 xdg-open 打开渲染的 PNG",
    }
}

#[verifier::allow_in_spec]
pub fn help_template(lang: Lang) -> &'static str
    returns
        match lang {
            Lang::En => "Template to apply [default: default]",
            Lang::Zh => "应用的模板 [默认: default]",
        },
{
    match lang {
        Lang::En => "Template to apply [default: default]",
        Lang::Zh => "应用的模板 [默认: default]",
    }
}

// Error message fragments (the `description` argument of `fmt_error`)

#[verifier::allow_in_spec]
pub fn err_read_stdin(lang: Lang) -> &'static str
    returns
        match lang {
            Lang::En => "failed to read stdin",
            Lang::Zh => "读取标准输入失败",
        },
{
    match lang {
        Lang::En => "failed to read stdin",
        Lang::Zh => "读取标准输入失败",
    }
}

#[verifier::allow_in_spec]
pub fn err_write_output(lang: Lang) -> &'static str
    returns
        match lang {
            Lang::En => "failed to write output",
            Lang::Zh => "写入输出失败",
        },
{
    match lang {
        Lang::En => "failed to write output",
        Lang::Zh => "写入输出失败",
    }
}

#[verifier::allow_in_spec]
pub fn err_write_file(lang: Lang) -> &'static str
    returns
        match lang {
            Lang::En => "failed to write output file",
            Lang::Zh => "写入输出文件失败",
        },
{
    match lang {
        Lang::En => "failed to write output file",
        Lang::Zh => "写入输出文件失败",
    }
}

#[verifier::allow_in_spec]
pub fn err_read_line(lang: Lang) -> &'static str
    returns
        match lang {
            Lang::En => "failed to read input",
            Lang::Zh => "读取输入失败",
        },
{
    match lang {
        Lang::En => "failed to read input",
        Lang::Zh => "读取输入失败",
    }
}

// Labels of diagnostics printed by the pipe and interactive modes

#[verifier::allow_in_spec]
pub fn dlg_label_warning(lang: Lang) -> &'static str
    returns
        match lang {
            Lang::En => "warning",
            Lang::Zh => "警告",
        },
{
    match lang {
        Lang::En => "warning",
        Lang::Zh => "警告",
    }
}

#[verifier::allow_in_spec]
pub fn dlg_label_error(lang: Lang) -> &'static str
    returns
        match lang {
            Lang::En => "error",
            Lang::Zh => "错误",
        },
{
    match lang {
        Lang::En => "error",
        Lang::Zh => "错误",
    }
}

#[verifier::allow_in_spec]
pub fn dlg_hint_prefix(lang: Lang) -> &'static str
    returns
        match lang {
            Lang::En => "  hint: ",
            Lang::Zh => "  提示：",
        },
{
    match lang {
        Lang::En => "  hint: ",
        Lang::Zh => "  提示：",
    }
}

// Log messages

#[verifier::allow_in_spec]
pub fn log_signal_register_failed(lang: Lang) -> &'static str
    returns
        match lang {
            Lang::En => "failed to register signal handler",
            Lang::Zh => "注册信号处理器失败",
        },
{
    match lang {
        Lang::En => "failed to register signal handler",
        Lang::Zh => "注册信号处理器失败",
    }
}

#[verifier::allow_in_spec]
pub fn log_using_package_cache(lang: Lang) -> &'static str
    returns
        match lang {
            Lang::En => "using package cache",
            Lang::Zh => "使用包缓存",
        },
{
    match lang {
        Lang::En => "using package cache",
        Lang::Zh => "使用包缓存",
    }
}

#[verifier::allow_in_spec]
pub fn log_using_package_path(lang: Lang) -> &'static str
    returns
        match lang {
            Lang::En => "using package path",
            Lang::Zh => "使用本地包路径",
        },
{
    match lang {
        Lang::En => "using package path",
        Lang::Zh => "使用本地包路径",
    }
}

#[verifier::allow_in_spec]
pub fn log_loading_fonts(lang: Lang) -> &'static str
    returns
        match lang {
            Lang::En => "loading fonts",
            Lang::Zh => "正在加载字体",
        },
{
    match lang {
        Lang::En => "loading fonts",
        Lang::Zh => "正在加载字体",
    }
}

#[verifier::allow_in_spec]
pub fn log_fonts_loaded(lang: Lang) -> &'static str
    returns
        match lang {
            Lang::En => "fonts loaded",
            Lang::Zh => "字体加载完成",
        },
{
    match lang {
        Lang::En => "fonts loaded",
        Lang::Zh => "字体加载完成",
    }
}

#[verifier::allow_in_spec]
pub fn log_no_package_cache(lang: Lang) -> &'static str
    returns
        match lang {
            Lang::En => "no package cache directory found",
            Lang::Zh => "未找到包缓存目录",
        },
{
    match lang {
        Lang::En => "no package cache directory found",
        Lang::Zh => "未找到包缓存目录",
    }
}

#[verifier::allow_in_spec]
pub fn log_no_package_path(lang: Lang) -> &'static str
    returns
        match lang {
            Lang::En => "no package path set",
            Lang::Zh => "未设置本地包路径",
        },
{
    match lang {
        Lang::En => "no package path set",
        Lang::Zh => "未设置本地包路径",
    }
}

#[verifier::allow_in_spec]
pub fn log_write_ready_failed(lang: Lang) -> &'static str
    returns
        match lang {
            Lang::En => "failed to write ready message",
            Lang::Zh => "写入就绪消息失败",
        },
{
    match lang {
        Lang::En => "failed to write ready message",
        Lang::Zh => "写入就绪消息失败",
    }
}

#[verifier::allow_in_spec]
pub fn log_shutdown_signal(lang: Lang) -> &'static str
    returns
        match lang {
            Lang::En => "received shutdown signal, exiting",
            Lang::Zh => "收到关闭信号，退出",
        },
{
    match lang {
        Lang::En => "received shutdown signal, exiting",
        Lang::Zh => "收到关闭信号，退出",
    }
}

#[verifier::allow_in_spec]
pub fn log_stdin_closed(lang: Lang) -> &'static str
    returns
        match lang {
            Lang::En => "stdin closed, shutting down",
            Lang::Zh => "标准输入关闭，正在停止",
        },
{
    match lang {
        Lang::En => "stdin closed, shutting down",
        Lang::Zh => "标准输入关闭，正在停止",
    }
}

#[verifier::allow_in_spec]
pub fn log_protocol_error(lang: Lang) -> &'static str
    returns
        match lang {
            Lang::En => "protocol error",
            Lang::Zh => "协议错误",
        },
{
    match lang {
        Lang::En => "protocol error",
        Lang::Zh => "协议错误",
    }
}

#[verifier::allow_in_spec]
pub fn log_write_response_failed(lang: Lang) -> &'static str
    returns
        match lang {
            Lang::En => "failed to write response",
            Lang::Zh => "写入响应失败",
        },
{
    match lang {
        Lang::En => "failed to write response",
        Lang::Zh => "写入响应失败",
    }
}

#[verifier::allow_in_spec]
pub fn log_max_compilations(lang: Lang) -> &'static str
    returns
        match lang {
            Lang::En => "reached max compilations, exiting",
            Lang::Zh => "已达最大编译次数，退出",
        },
{
    match lang {
        Lang::En => "reached max compilations, exiting",
        Lang::Zh => "已达最大编译次数，退出",
    }
}

#[verifier::allow_in_spec]
pub fn log_cache_create_failed(lang: Lang) -> &'static str
    returns
        match lang {
            Lang::En => "failed to create package cache directory; package imports disabled",
            Lang::Zh => "创建包缓存目录失败；已禁用包导入",
        },
{
    match lang {
        Lang::En => "failed to create package cache directory; package imports disabled",
        Lang::Zh => "创建包缓存目录失败；已禁用包导入",
    }
}

#[verifier::allow_in_spec]
pub fn log_cache_canonicalize_failed(lang: Lang) -> &'static str
    returns
        match lang {
            Lang::En => "package cache directory cannot be canonicalized; package imports disabled",
            Lang::Zh => "包缓存目录无法规范化；已禁用包导入",
        },
{
    match lang {
        Lang::En => "package cache directory cannot be canonicalized; package imports disabled",
        Lang::Zh => "包缓存目录无法规范化；已禁用包导入",
    }
}

#[verifier::allow_in_spec]
pub fn log_path_canonicalize_failed(lang: Lang) -> &'static str
    returns
        match lang {
            Lang::En => "package path cannot be canonicalized, skipping",
            Lang::Zh => "本地包路径无法规范化，跳过",
        },
{
    match lang {
        Lang::En => "package path cannot be canonicalized, skipping",
        Lang::Zh => "本地包路径无法规范化，跳过",
    }
}

#[verifier::allow_in_spec]
pub fn log_path_not_exist(lang: Lang) -> &'static str
    returns
        match lang {
            Lang::En => "package path does not exist, skipping",
            Lang::Zh => "本地包路径不存在，跳过",
        },
{
    match lang {
        Lang::En => "package path does not exist, skipping",
        Lang::Zh => "本地包路径不存在，跳过",
    }
}

#[verifier::allow_in_spec]
pub fn log_downloading_package(lang: Lang) -> &'static str
    returns
        match lang {
            Lang::En => "downloading package",
            Lang::Zh => "正在下载包",
        },
{
    match lang {
        Lang::En => "downloading package",
        Lang::Zh => "正在下载包",
    }
}

#[verifier::allow_in_spec]
pub fn log_package_downloaded(lang: Lang) -> &'static str
    returns
        match lang {
            Lang::En => "package downloaded and extracted",
            Lang::Zh => "包下载并解压完成",
        },
{
    match lang {
        Lang::En => "package downloaded and extracted",
        Lang::Zh => "包下载并解压完成",
    }
}

#[verifier::allow_in_spec]
pub fn log_package_already_exists(lang: Lang) -> &'static str
    returns
        match lang {
            Lang::En => "package already placed by another worker, discarding our copy",
            Lang::Zh => "另一工作进程已安装此包，丢弃本次下载",
        },
{
    match lang {
        Lang::En => "package already placed by another worker, discarding our copy",
        Lang::Zh => "另一工作进程已安装此包，丢弃本次下载",
    }
}

#[verifier::allow_in_spec]
pub fn log_render_complete(lang: Lang) -> &'static str
    returns
        match lang {
            Lang::En => "render complete",
            Lang::Zh => "渲染完成",
        },
{
    match lang {
        Lang::En => "render complete",
        Lang::Zh => "渲染完成",
    }
}

#[verifier::allow_in_spec]
pub fn log_source_access(lang: Lang) -> &'static str
    returns
        match lang {
            Lang::En => "source",
            Lang::Zh => "源文件访问",
        },
{
    match lang {
        Lang::En => "source",
        Lang::Zh => "源文件访问",
    }
}

#[verifier::allow_in_spec]
pub fn log_file_access(lang: Lang) -> &'static str
    returns
        match lang {
            Lang::En => "file",
            Lang::Zh => "文件访问",
        },
{
    match lang {
        Lang::En => "file",
        Lang::Zh => "文件访问",
    }
}

#[verifier::allow_in_spec]
pub fn log_template_internal_error(lang: Lang) -> &'static str
    returns
        match lang {
            Lang::En => "template internal error",
            Lang::Zh => "模板内部错误",
        },
{
    match lang {
        Lang::En => "template internal error",
        Lang::Zh => "模板内部错误",
    }
}

// Interactive mode

#[verifier::allow_in_spec]
pub fn msg_interactive_banner(lang: Lang) -> &'static str
    returns
        match lang {
            Lang::En => "Interactive mode: type typst source on one line, press Enter to compile.",
            Lang::Zh => "交互模式：输入一行 Typst 源码，按回车编译。",
        },
{
    match lang {
        Lang::En => "Interactive mode: type typst source on one line, press Enter to compile.",
        Lang::Zh => "交互模式：输入一行 Typst 源码，按回车编译。",
    }
}

#[verifier::allow_in_spec]
pub fn msg_output_path(lang: Lang) -> &'static str
    returns
        match lang {
            Lang::En => "Preview PNG:",
            Lang::Zh => "预览 PNG：",
        },
{
    match lang {
        Lang::En => "Preview PNG:",
        Lang::Zh => "预览 PNG：",
    }
}

#[verifier::allow_in_spec]
pub fn msg_open_hint(lang: Lang) -> &'static str
    returns
        match lang {
            Lang::En => "The preview is opened with xdg-open after each compilation.",
            Lang::Zh => "每次编译后使用 xdg-open 打开预览。",
        },
{
    match lang {
        Lang::En => "The preview is opened with xdg-open after each compilation.",
        Lang::Zh => "每次编译后使用 xdg-open 打开预览。",
    }
}

#[verifier::allow_in_spec]
pub fn msg_exit_hint(lang: Lang) -> &'static str
    returns
        match lang {
            Lang::En => "Press Ctrl-D to exit.",
            Lang::Zh => "按 Ctrl-D 退出。",
        },
{
    match lang {
        Lang::En => "Press Ctrl-D to exit.",
        Lang::Zh => "按 Ctrl-D 退出。",
    }
}

#[verifier::allow_in_spec]
pub fn msg_shutting_down(lang: Lang) -> &'static str
    returns
        match lang {
            Lang::En => "Shutting down.",
            Lang::Zh => "正在退出。",
        },
{
    match lang {
        Lang::En => "Shutting down.",
        Lang::Zh => "正在退出。",
    }
}

#[verifier::allow_in_spec]
pub fn msg_eof_exit(lang: Lang) -> &'static str
    returns
        match lang {
            Lang::En => "End of input, exiting.",
            Lang::Zh => "输入结束，退出。",
        },
{
    match lang {
        Lang::En => "End of input, exiting.",
        Lang::Zh => "输入结束，退出。",
    }
}

#[verifier::allow_in_spec]
pub fn msg_max_compilations_reached(lang: Lang) -> &'static str
    returns
        match lang {
            Lang::En => "Reached the maximum number of compilations, exiting",
            Lang::Zh => "已达最大编译次数，退出",
        },
{
    match lang {
        Lang::En => "Reached the maximum number of compilations, exiting",
        Lang::Zh => "已达最大编译次数，退出",
    }
}

} // verus!
