//! Where icons are previewed and downloaded.

use crate::strings::str_eq;
use crate::text::{chars_of, decimal, decimal_digits, push_all, push_str, to_string};
use vstd::prelude::*;

verus! {

/// Pixels of a PNG icon where none are asked for.
pub const DEFAULT_PNG_SIZE: u32 = 64;

/// The icon workshop as a tool.
pub struct IconTool;

/// How the icon workshop shows in the list of tools.
pub struct IconToolInfo {
    pub id: String,
    pub name: String,
    pub description: String,
    pub icon: String,
    pub icon_bg: String,
    pub dark_icon_bg: String,
    pub enabled: bool,
    pub can_disable: bool,
    pub has_config: bool,
}

impl IconTool {
    /// How the icon workshop shows in the list of tools: switched on, and
    /// it can be switched off and configured.
    pub fn get_tool_info() -> (out: IconToolInfo)
        ensures
            out.id@ == "icon"@,
            out.name@ == "图标工坊"@,
            out.description@ == "搜索和管理 Iconfont 图标，支持预览、复制和下载"@,
            out.icon@ == "i-carbon-image"@,
            out.icon_bg@ == "bg-purple-500/10"@,
            out.dark_icon_bg@ == "dark:bg-purple-500/20"@,
            out.enabled,
            out.can_disable,
            out.has_config,
    {
        IconToolInfo {
            id: "icon".to_owned(),
            name: "图标工坊".to_owned(),
            description: "搜索和管理 Iconfont 图标，支持预览、复制和下载".to_owned(),
            icon: "i-carbon-image".to_owned(),
            icon_bg: "bg-purple-500/10".to_owned(),
            dark_icon_bg: "dark:bg-purple-500/20".to_owned(),
            enabled: true,
            can_disable: true,
            has_config: true,
        }
    }
}

/// Where the icon `id` is previewed.
pub fn build_preview_url(id: u64) -> (url: String)
    ensures
        url@ == "https://at.alicdn.com/t/c/font_"@ + decimal(id as nat) + "_preview.svg"@,
{
    let mut u = chars_of("https://at.alicdn.com/t/c/font_");
    let digits = decimal_digits(id);
    push_all(&mut u, &digits);
    push_str(&mut u, "_preview.svg");
    to_string(&u)
}

/// Where the icon `id` is downloaded: as PNG of `size` pixels (64 where none
/// is given) for the format `png`, as SVG for every other format.
pub fn build_download_url(id: u64, format: &str, size: Option<u32>) -> (url: String)
    ensures
        url@ == if format@ == "png"@ {
            "https://www.iconfont.cn/api/icon/downloadIcon?id="@ + decimal(id as nat)
                + "&type=png&size="@ + decimal(
                match size {
                    Some(s) => s as nat,
                    None => DEFAULT_PNG_SIZE as nat,
                },
            )
        } else {
            "https://www.iconfont.cn/api/icon/downloadIcon?id="@ + decimal(id as nat)
                + "&type=svg"@
        },
{
    let mut u = chars_of("https://www.iconfont.cn/api/icon/downloadIcon?id=");
    let digits = decimal_digits(id);
    push_all(&mut u, &digits);
    if str_eq(format, "png") {
        let pixels: u32 = match size {
            Some(s) => s,
            None => DEFAULT_PNG_SIZE,
        };
        push_str(&mut u, "&type=png&size=");
        let d = decimal_digits(pixels as u64);
        push_all(&mut u, &d);
    } else {
        push_str(&mut u, "&type=svg");
    }
    to_string(&u)
}

} // verus!
