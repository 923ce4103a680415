//! A fixed table between file extensions and MIME types.  Duplicate
//! entries resolve to the first match, in table order, for both
//! directions.
use vstd::prelude::*;

use crate::strutil::str_eq;

verus! {

/// The MIME type of a file extension (without its period), if the
/// table knows the extension.
pub open spec fn spec_extension_to_mime(extension: Seq<char>) -> Option<Seq<char>> {
    if extension == "aac"@ {
        Some("audio/aac"@)
    } else if extension == "abw"@ {
        Some("application/x-abiword"@)
    } else if extension == "arc"@ {
        Some("application/octet-stream"@)
    } else if extension == "avi"@ {
        Some("video/x-msvideo"@)
    } else if extension == "azw"@ {
        Some("application/vnd.amazon.ebook"@)
    } else if extension == "bin"@ {
        Some("application/octet-stream"@)
    } else if extension == "bz"@ {
        Some("application/x-bzip"@)
    } else if extension == "bz2"@ {
        Some("application/x-bzip2"@)
    } else if extension == "csh"@ {
        Some("application/x-csh"@)
    } else if extension == "css"@ {
        Some("text/css"@)
    } else if extension == "csv"@ {
        Some("text/csv"@)
    } else if extension == "doc"@ {
        Some("application/msword"@)
    } else if extension == "epub"@ {
        Some("application/epub+zip"@)
    } else if extension == "gif"@ {
        Some("image/gif"@)
    } else if extension == "ics"@ {
        Some("text/calendar"@)
    } else if extension == "jar"@ {
        Some("application/java-archive"@)
    } else if extension == "midi"@ {
        Some("audio/midi"@)
    } else if extension == "mid"@ {
        Some("audio/midi"@)
    } else if extension == "mpeg"@ {
        Some("video/mpeg"@)
    } else if extension == "mpkg"@ {
        Some("application/vnd.apple.installer+xml"@)
    } else if extension == "odp"@ {
        Some("application/vnd.oasis.opendocument.presentation"@)
    } else if extension == "ods"@ {
        Some("application/vnd.oasis.opendocument.spreadsheet"@)
    } else if extension == "odt"@ {
        Some("application/vnd.oasis.opendocument.text"@)
    } else if extension == "oga"@ {
        Some("audio/ogg"@)
    } else if extension == "ogv"@ {
        Some("video/ogg"@)
    } else if extension == "ogx"@ {
        Some("application/ogg"@)
    } else if extension == "pdf"@ {
        Some("application/pdf"@)
    } else if extension == "ppt"@ {
        Some("application/vnd.ms-powerpoint"@)
    } else if extension == "rar"@ {
        Some("application/x-rar-compressed"@)
    } else if extension == "rtf"@ {
        Some("application/rtf"@)
    } else if extension == "sh"@ {
        Some("application/x-sh"@)
    } else if extension == "tar"@ {
        Some("application/x-tar"@)
    } else if extension == "tif"@ {
        Some("image/tiff"@)
    } else if extension == "tiff"@ {
        Some("image/tiff"@)
    } else if extension == "ttf"@ {
        Some("font/ttf"@)
    } else if extension == "vsd"@ {
        Some("application/vnd.visio"@)
    } else if extension == "weba"@ {
        Some("audio/webm"@)
    } else if extension == "webm"@ {
        Some("video/webm"@)
    } else if extension == "webp"@ {
        Some("image/webp"@)
    } else if extension == "woff"@ {
        Some("font/woff"@)
    } else if extension == "woff2"@ {
        Some("font/woff2"@)
    } else if extension == "xhtml"@ {
        Some("application/xhtml+xml"@)
    } else if extension == "xls"@ {
        Some("application/vnd.ms-excel"@)
    } else if extension == "xml"@ {
        Some("application/xml"@)
    } else if extension == "xul"@ {
        Some("application/vnd.mozilla.xul+xml"@)
    } else if extension == "zip"@ {
        Some("application/zip"@)
    } else if extension == "3gp"@ {
        Some("video/3pgp"@)
    } else if extension == "3gp"@ {
        Some("audio/3gpp"@)
    } else if extension == "3g2"@ {
        Some("video/3gpp2"@)
    } else if extension == "3g2"@ {
        Some("audio/3gpp2"@)
    } else if extension == "7z"@ {
        Some("application/x-7z-compressed"@)
    } else if extension == "html"@ {
        Some("text/html"@)
    } else if extension == "js"@ {
        Some("text/javascript"@)
    } else if extension == "json"@ {
        Some("application/json"@)
    } else if extension == "png"@ {
        Some("image/png"@)
    } else if extension == "jpg"@ {
        Some("image/jpeg"@)
    } else if extension == "svg"@ {
        Some("image/svg+xml"@)
    } else if extension == "ico"@ {
        Some("image/x-icon"@)
    } else if extension == "webp"@ {
        Some("image/webp"@)
    } else if extension == "mp4"@ {
        Some("video/mp4"@)
    } else if extension == "webm"@ {
        Some("video/webm"@)
    } else if extension == "ogg"@ {
        Some("video/ogg"@)
    } else if extension == "mp3"@ {
        Some("audio/mpeg"@)
    } else if extension == "wav"@ {
        Some("audio/x-wav"@)
    } else if extension == "flac"@ {
        Some("audio/flac"@)
    } else if extension == "txt"@ {
        Some("text/plain"@)
    } else if extension == "jpeg"@ {
        Some("image/jpeg"@)
    } else if extension == "htm"@ {
        Some("text/html"@)
    } else {
        None
    }
}

/// The first extension the table lists for a MIME type, if any.
pub open spec fn spec_mime_to_extension(mime_type: Seq<char>) -> Option<Seq<char>> {
    if mime_type == "audio/aac"@ {
        Some("aac"@)
    } else if mime_type == "application/x-abiword"@ {
        Some("abw"@)
    } else if mime_type == "application/octet-stream"@ {
        Some("arc"@)
    } else if mime_type == "video/x-msvideo"@ {
        Some("avi"@)
    } else if mime_type == "application/vnd.amazon.ebook"@ {
        Some("azw"@)
    } else if mime_type == "application/octet-stream"@ {
        Some("bin"@)
    } else if mime_type == "application/x-bzip"@ {
        Some("bz"@)
    } else if mime_type == "application/x-bzip2"@ {
        Some("bz2"@)
    } else if mime_type == "application/x-csh"@ {
        Some("csh"@)
    } else if mime_type == "text/css"@ {
        Some("css"@)
    } else if mime_type == "text/csv"@ {
        Some("csv"@)
    } else if mime_type == "application/msword"@ {
        Some("doc"@)
    } else if mime_type == "application/epub+zip"@ {
        Some("epub"@)
    } else if mime_type == "image/gif"@ {
        Some("gif"@)
    } else if mime_type == "text/calendar"@ {
        Some("ics"@)
    } else if mime_type == "application/java-archive"@ {
        Some("jar"@)
    } else if mime_type == "audio/midi"@ {
        Some("midi"@)
    } else if mime_type == "audio/midi"@ {
        Some("mid"@)
    } else if mime_type == "video/mpeg"@ {
        Some("mpeg"@)
    } else if mime_type == "application/vnd.apple.installer+xml"@ {
        Some("mpkg"@)
    } else if mime_type == "application/vnd.oasis.opendocument.presentation"@ {
        Some("odp"@)
    } else if mime_type == "application/vnd.oasis.opendocument.spreadsheet"@ {
        Some("ods"@)
    } else if mime_type == "application/vnd.oasis.opendocument.text"@ {
        Some("odt"@)
    } else if mime_type == "audio/ogg"@ {
        Some("oga"@)
    } else if mime_type == "video/ogg"@ {
        Some("ogv"@)
    } else if mime_type == "application/ogg"@ {
        Some("ogx"@)
    } else if mime_type == "application/pdf"@ {
        Some("pdf"@)
    } else if mime_type == "application/vnd.ms-powerpoint"@ {
        Some("ppt"@)
    } else if mime_type == "application/x-rar-compressed"@ {
        Some("rar"@)
    } else if mime_type == "application/rtf"@ {
        Some("rtf"@)
    } else if mime_type == "application/x-sh"@ {
        Some("sh"@)
    } else if mime_type == "application/x-tar"@ {
        Some("tar"@)
    } else if mime_type == "image/tiff"@ {
        Some("tif"@)
    } else if mime_type == "image/tiff"@ {
        Some("tiff"@)
    } else if mime_type == "font/ttf"@ {
        Some("ttf"@)
    } else if mime_type == "application/vnd.visio"@ {
        Some("vsd"@)
    } else if mime_type == "audio/webm"@ {
        Some("weba"@)
    } else if mime_type == "video/webm"@ {
        Some("webm"@)
    } else if mime_type == "image/webp"@ {
        Some("webp"@)
    } else if mime_type == "font/woff"@ {
        Some("woff"@)
    } else if mime_type == "font/woff2"@ {
        Some("woff2"@)
    } else if mime_type == "application/xhtml+xml"@ {
        Some("xhtml"@)
    } else if mime_type == "application/vnd.ms-excel"@ {
        Some("xls"@)
    } else if mime_type == "application/xml"@ {
        Some("xml"@)
    } else if mime_type == "application/vnd.mozilla.xul+xml"@ {
        Some("xul"@)
    } else if mime_type == "application/zip"@ {
        Some("zip"@)
    } else if mime_type == "video/3pgp"@ {
        Some("3gp"@)
    } else if mime_type == "audio/3gpp"@ {
        Some("3gp"@)
    } else if mime_type == "video/3gpp2"@ {
        Some("3g2"@)
    } else if mime_type == "audio/3gpp2"@ {
        Some("3g2"@)
    } else if mime_type == "application/x-7z-compressed"@ {
        Some("7z"@)
    } else if mime_type == "text/html"@ {
        Some("html"@)
    } else if mime_type == "text/javascript"@ {
        Some("js"@)
    } else if mime_type == "application/json"@ {
        Some("json"@)
    } else if mime_type == "image/png"@ {
        Some("png"@)
    } else if mime_type == "image/jpeg"@ {
        Some("jpg"@)
    } else if mime_type == "image/svg+xml"@ {
        Some("svg"@)
    } else if mime_type == "image/x-icon"@ {
        Some("ico"@)
    } else if mime_type == "image/webp"@ {
        Some("webp"@)
    } else if mime_type == "video/mp4"@ {
        Some("mp4"@)
    } else if mime_type == "video/webm"@ {
        Some("webm"@)
    } else if mime_type == "video/ogg"@ {
        Some("ogg"@)
    } else if mime_type == "audio/mpeg"@ {
        Some("mp3"@)
    } else if mime_type == "audio/x-wav"@ {
        Some("wav"@)
    } else if mime_type == "audio/flac"@ {
        Some("flac"@)
    } else if mime_type == "text/plain"@ {
        Some("txt"@)
    } else if mime_type == "image/jpeg"@ {
        Some("jpeg"@)
    } else if mime_type == "text/html"@ {
        Some("htm"@)
    } else {
        None
    }
}

/// Translates a file extension (without its period) into a MIME
/// type.
pub fn extension_to_mime(extension: &str) -> (r: Option<&'static str>)
    ensures
        match spec_extension_to_mime(extension@) {
            Some(m) => r matches Some(x) && x@ == m,
            None => r is None,
        },
{
    if str_eq(extension, "aac") {
        Some("audio/aac")
    } else if str_eq(extension, "abw") {
        Some("application/x-abiword")
    } else if str_eq(extension, "arc") {
        Some("application/octet-stream")
    } else if str_eq(extension, "avi") {
        Some("video/x-msvideo")
    } else if str_eq(extension, "azw") {
        Some("application/vnd.amazon.ebook")
    } else if str_eq(extension, "bin") {
        Some("application/octet-stream")
    } else if str_eq(extension, "bz") {
        Some("application/x-bzip")
    } else if str_eq(extension, "bz2") {
        Some("application/x-bzip2")
    } else if str_eq(extension, "csh") {
        Some("application/x-csh")
    } else if str_eq(extension, "css") {
        Some("text/css")
    } else if str_eq(extension, "csv") {
        Some("text/csv")
    } else if str_eq(extension, "doc") {
        Some("application/msword")
    } else if str_eq(extension, "epub") {
        Some("application/epub+zip")
    } else if str_eq(extension, "gif") {
        Some("image/gif")
    } else if str_eq(extension, "ics") {
        Some("text/calendar")
    } else if str_eq(extension, "jar") {
        Some("application/java-archive")
    } else if str_eq(extension, "midi") {
        Some("audio/midi")
    } else if str_eq(extension, "mid") {
        Some("audio/midi")
    } else if str_eq(extension, "mpeg") {
        Some("video/mpeg")
    } else if str_eq(extension, "mpkg") {
        Some("application/vnd.apple.installer+xml")
    } else if str_eq(extension, "odp") {
        Some("application/vnd.oasis.opendocument.presentation")
    } else if str_eq(extension, "ods") {
        Some("application/vnd.oasis.opendocument.spreadsheet")
    } else if str_eq(extension, "odt") {
        Some("application/vnd.oasis.opendocument.text")
    } else if str_eq(extension, "oga") {
        Some("audio/ogg")
    } else if str_eq(extension, "ogv") {
        Some("video/ogg")
    } else if str_eq(extension, "ogx") {
        Some("application/ogg")
    } else if str_eq(extension, "pdf") {
        Some("application/pdf")
    } else if str_eq(extension, "ppt") {
        Some("application/vnd.ms-powerpoint")
    } else if str_eq(extension, "rar") {
        Some("application/x-rar-compressed")
    } else if str_eq(extension, "rtf") {
        Some("application/rtf")
    } else if str_eq(extension, "sh") {
        Some("application/x-sh")
    } else if str_eq(extension, "tar") {
        Some("application/x-tar")
    } else if str_eq(extension, "tif") {
        Some("image/tiff")
    } else if str_eq(extension, "tiff") {
        Some("image/tiff")
    } else if str_eq(extension, "ttf") {
        Some("font/ttf")
    } else if str_eq(extension, "vsd") {
        Some("application/vnd.visio")
    } else if str_eq(extension, "weba") {
        Some("audio/webm")
    } else if str_eq(extension, "webm") {
        Some("video/webm")
    } else if str_eq(extension, "webp") {
        Some("image/webp")
    } else if str_eq(extension, "woff") {
        Some("font/woff")
    } else if str_eq(extension, "woff2") {
        Some("font/woff2")
    } else if str_eq(extension, "xhtml") {
        Some("application/xhtml+xml")
    } else if str_eq(extension, "xls") {
        Some("application/vnd.ms-excel")
    } else if str_eq(extension, "xml") {
        Some("application/xml")
    } else if str_eq(extension, "xul") {
        Some("application/vnd.mozilla.xul+xml")
    } else if str_eq(extension, "zip") {
        Some("application/zip")
    } else if str_eq(extension, "3gp") {
        Some("video/3pgp")
    } else if str_eq(extension, "3gp") {
        Some("audio/3gpp")
    } else if str_eq(extension, "3g2") {
        Some("video/3gpp2")
    } else if str_eq(extension, "3g2") {
        Some("audio/3gpp2")
    } else if str_eq(extension, "7z") {
        Some("application/x-7z-compressed")
    } else if str_eq(extension, "html") {
        Some("text/html")
    } else if str_eq(extension, "js") {
        Some("text/javascript")
    } else if str_eq(extension, "json") {
        Some("application/json")
    } else if str_eq(extension, "png") {
        Some("image/png")
    } else if str_eq(extension, "jpg") {
        Some("image/jpeg")
    } else if str_eq(extension, "svg") {
        Some("image/svg+xml")
    } else if str_eq(extension, "ico") {
        Some("image/x-icon")
    } else if str_eq(extension, "webp") {
        Some("image/webp")
    } else if str_eq(extension, "mp4") {
        Some("video/mp4")
    } else if str_eq(extension, "webm") {
        Some("video/webm")
    } else if str_eq(extension, "ogg") {
        Some("video/ogg")
    } else if str_eq(extension, "mp3") {
        Some("audio/mpeg")
    } else if str_eq(extension, "wav") {
        Some("audio/x-wav")
    } else if str_eq(extension, "flac") {
        Some("audio/flac")
    } else if str_eq(extension, "txt") {
        Some("text/plain")
    } else if str_eq(extension, "jpeg") {
        Some("image/jpeg")
    } else if str_eq(extension, "htm") {
        Some("text/html")
    } else {
        None
    }
}

/// The first extension associated with a MIME type, if the table
/// holds the MIME type at all.
pub fn mime_to_extension(mime_type: &str) -> (r: Option<&'static str>)
    ensures
        match spec_mime_to_extension(mime_type@) {
            Some(e) => r matches Some(x) && x@ == e,
            None => r is None,
        },
{
    if str_eq(mime_type, "audio/aac") {
        Some("aac")
    } else if str_eq(mime_type, "application/x-abiword") {
        Some("abw")
    } else if str_eq(mime_type, "application/octet-stream") {
        Some("arc")
    } else if str_eq(mime_type, "video/x-msvideo") {
        Some("avi")
    } else if str_eq(mime_type, "application/vnd.amazon.ebook") {
        Some("azw")
    } else if str_eq(mime_type, "application/octet-stream") {
        Some("bin")
    } else if str_eq(mime_type, "application/x-bzip") {
        Some("bz")
    } else if str_eq(mime_type, "application/x-bzip2") {
        Some("bz2")
    } else if str_eq(mime_type, "application/x-csh") {
        Some("csh")
    } else if str_eq(mime_type, "text/css") {
        Some("css")
    } else if str_eq(mime_type, "text/csv") {
        Some("csv")
    } else if str_eq(mime_type, "application/msword") {
        Some("doc")
    } else if str_eq(mime_type, "application/epub+zip") {
        Some("epub")
    } else if str_eq(mime_type, "image/gif") {
        Some("gif")
    } else if str_eq(mime_type, "text/calendar") {
        Some("ics")
    } else if str_eq(mime_type, "application/java-archive") {
        Some("jar")
    } else if str_eq(mime_type, "audio/midi") {
        Some("midi")
    } else if str_eq(mime_type, "audio/midi") {
        Some("mid")
    } else if str_eq(mime_type, "video/mpeg") {
        Some("mpeg")
    } else if str_eq(mime_type, "application/vnd.apple.installer+xml") {
        Some("mpkg")
    } else if str_eq(mime_type, "application/vnd.oasis.opendocument.presentation") {
        Some("odp")
    } else if str_eq(mime_type, "application/vnd.oasis.opendocument.spreadsheet") {
        Some("ods")
    } else if str_eq(mime_type, "application/vnd.oasis.opendocument.text") {
        Some("odt")
    } else if str_eq(mime_type, "audio/ogg") {
        Some("oga")
    } else if str_eq(mime_type, "video/ogg") {
        Some("ogv")
    } else if str_eq(mime_type, "application/ogg") {
        Some("ogx")
    } else if str_eq(mime_type, "application/pdf") {
        Some("pdf")
    } else if str_eq(mime_type, "application/vnd.ms-powerpoint") {
        Some("ppt")
    } else if str_eq(mime_type, "application/x-rar-compressed") {
        Some("rar")
    } else if str_eq(mime_type, "application/rtf") {
        Some("rtf")
    } else if str_eq(mime_type, "application/x-sh") {
        Some("sh")
    } else if str_eq(mime_type, "application/x-tar") {
        Some("tar")
    } else if str_eq(mime_type, "image/tiff") {
        Some("tif")
    } else if str_eq(mime_type, "image/tiff") {
        Some("tiff")
    } else if str_eq(mime_type, "font/ttf") {
        Some("ttf")
    } else if str_eq(mime_type, "application/vnd.visio") {
        Some("vsd")
    } else if str_eq(mime_type, "audio/webm") {
        Some("weba")
    } else if str_eq(mime_type, "video/webm") {
        Some("webm")
    } else if str_eq(mime_type, "image/webp") {
        Some("webp")
    } else if str_eq(mime_type, "font/woff") {
        Some("woff")
    } else if str_eq(mime_type, "font/woff2") {
        Some("woff2")
    } else if str_eq(mime_type, "application/xhtml+xml") {
        Some("xhtml")
    } else if str_eq(mime_type, "application/vnd.ms-excel") {
        Some("xls")
    } else if str_eq(mime_type, "application/xml") {
        Some("xml")
    } else if str_eq(mime_type, "application/vnd.mozilla.xul+xml") {
        Some("xul")
    } else if str_eq(mime_type, "application/zip") {
        Some("zip")
    } else if str_eq(mime_type, "video/3pgp") {
        Some("3gp")
    } else if str_eq(mime_type, "audio/3gpp") {
        Some("3gp")
    } else if str_eq(mime_type, "video/3gpp2") {
        Some("3g2")
    } else if str_eq(mime_type, "audio/3gpp2") {
        Some("3g2")
    } else if str_eq(mime_type, "application/x-7z-compressed") {
        Some("7z")
    } else if str_eq(mime_type, "text/html") {
        Some("html")
    } else if str_eq(mime_type, "text/javascript") {
        Some("js")
    } else if str_eq(mime_type, "application/json") {
        Some("json")
    } else if str_eq(mime_type, "image/png") {
        Some("png")
    } else if str_eq(mime_type, "image/jpeg") {
        Some("jpg")
    } else if str_eq(mime_type, "image/svg+xml") {
        Some("svg")
    } else if str_eq(mime_type, "image/x-icon") {
        Some("ico")
    } else if str_eq(mime_type, "image/webp") {
        Some("webp")
    } else if str_eq(mime_type, "video/mp4") {
        Some("mp4")
    } else if str_eq(mime_type, "video/webm") {
        Some("webm")
    } else if str_eq(mime_type, "video/ogg") {
        Some("ogg")
    } else if str_eq(mime_type, "audio/mpeg") {
        Some("mp3")
    } else if str_eq(mime_type, "audio/x-wav") {
        Some("wav")
    } else if str_eq(mime_type, "audio/flac") {
        Some("flac")
    } else if str_eq(mime_type, "text/plain") {
        Some("txt")
    } else if str_eq(mime_type, "image/jpeg") {
        Some("jpeg")
    } else if str_eq(mime_type, "text/html") {
        Some("htm")
    } else {
        None
    }
}

} // verus!
