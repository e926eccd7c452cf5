//! MIME-type data: the recognized `type/subtype` tokens.

use vstd::prelude::*;
use crate::strutil::str_eq;

verus! {

/// A recognized media type, with the token it was read from.
#[derive(Debug, PartialEq)]
pub struct MimeType {
    pub main_type: MainMimeType,
    pub sub_type: SubMimeType,
    pub original: String,
}

/// The top-level media-type families.
#[derive(Debug, PartialEq, Eq, Structural, Clone, Copy)]
pub enum MainMimeType {
    Application,
    Audio,
    Font,
    Image,
    Text,
    Video,
    Multipart,
}

/// The recognized subtypes.
#[derive(Debug, PartialEq, Eq, Structural, Clone, Copy)]
pub enum SubMimeType {
    AAC,
    ABW,
    APNG,
    ARC,
    AVIF,
    AVI,
    AZW,
    BIN,
    BMP,
    BZ,
    BZ2,
    CDA,
    CSH,
    CSS,
    CSV,
    DOC,
    DOCX,
    EOT,
    EPUB,
    GZ,
    GIF,
    HTM,
    ICO,
    ICS,
    JAR,
    JPEG,
    JS,
    JSON,
    JSONLD,
    MID,
    MJS,
    MP3,
    MP4,
    MPEG,
    MPKG,
    ODP,
    ODS,
    ODT,
    OGA,
    OGV,
    OGX,
    OTF,
    PNG,
    PDF,
    PHP,
    PPT,
    PPTX,
    RAR,
    RTF,
    SH,
    SVG,
    TAR,
    TIF,
    TS,
    TTF,
    TXT,
    VSD,
    WAV,
    WEBA,
    WEBM,
    WEBP,
    WOFF,
    WOFF2,
    XHTML,
    XLS,
    XLSX,
    XML,
    XUL,
    ZIP,
    FormData,
    _3GP,
    _3G2,
    _7Z,
}

/// The `(family, subtype)` pair a media-type token names, if any.
pub open spec fn mime_pair(s: Seq<char>) -> Option<(MainMimeType, SubMimeType)> {

    if s == "audio/aac"@ {
        Some((MainMimeType::Audio, SubMimeType::AAC))
    } else if s == "application/x-abiword"@ {
        Some((MainMimeType::Application, SubMimeType::ABW))
    } else if s == "image/apng"@ {
        Some((MainMimeType::Image, SubMimeType::APNG))
    } else if s == "application/x-freearc"@ {
        Some((MainMimeType::Application, SubMimeType::ARC))
    } else if s == "image/avif"@ {
        Some((MainMimeType::Image, SubMimeType::AVIF))
    } else if s == "video/x-msvideo"@ {
        Some((MainMimeType::Video, SubMimeType::AVI))
    } else if s == "application/vnd.amazon.ebook"@ {
        Some((MainMimeType::Application, SubMimeType::AZW))
    } else if s == "application/octet-stream"@ {
        Some((MainMimeType::Application, SubMimeType::BIN))
    } else if s == "image/bmp"@ {
        Some((MainMimeType::Image, SubMimeType::BMP))
    } else if s == "application/x-bzip"@ {
        Some((MainMimeType::Application, SubMimeType::BZ))
    } else if s == "application/x-bzip2"@ {
        Some((MainMimeType::Application, SubMimeType::BZ2))
    } else if s == "application/x-cdf"@ {
        Some((MainMimeType::Application, SubMimeType::CDA))
    } else if s == "application/x-csh"@ {
        Some((MainMimeType::Application, SubMimeType::CSH))
    } else if s == "text/css"@ {
        Some((MainMimeType::Text, SubMimeType::CSS))
    } else if s == "text/csv"@ {
        Some((MainMimeType::Text, SubMimeType::CSV))
    } else if s == "application/msword"@ {
        Some((MainMimeType::Application, SubMimeType::DOC))
    } else if s == "application/vnd.openxmlformats-officedocument.wordprocessingml.document"@ {
        Some((MainMimeType::Application, SubMimeType::DOCX))
    } else if s == "application/vnd.ms-fontobject"@ {
        Some((MainMimeType::Application, SubMimeType::EOT))
    } else if s == "application/epub+zip"@ {
        Some((MainMimeType::Application, SubMimeType::EPUB))
    } else if s == "application/gzip"@ || s == ".gz"@ || s == "application/x-gzip"@ {
        Some((MainMimeType::Application, SubMimeType::GZ))
    } else if s == "image/gif"@ {
        Some((MainMimeType::Image, SubMimeType::GIF))
    } else if s == "text/html"@ {
        Some((MainMimeType::Text, SubMimeType::HTM))
    } else if s == "image/vnd.microsoft.icon"@ {
        Some((MainMimeType::Image, SubMimeType::ICO))
    } else if s == "text/calendar"@ {
        Some((MainMimeType::Text, SubMimeType::ICS))
    } else if s == "application/java-archive"@ {
        Some((MainMimeType::Application, SubMimeType::JAR))
    } else if s == "image/jpeg"@ {
        Some((MainMimeType::Image, SubMimeType::JPEG))
    } else if s == "text/javascript"@ {
        Some((MainMimeType::Text, SubMimeType::JS))
    } else if s == "application/json"@ {
        Some((MainMimeType::Application, SubMimeType::JSON))
    } else if s == "application/ld+json"@ {
        Some((MainMimeType::Application, SubMimeType::JSONLD))
    } else if s == "audio/midi"@ || s == "audio/x-midi"@ {
        Some((MainMimeType::Audio, SubMimeType::MID))
    } else if s == "audio/mpeg"@ {
        Some((MainMimeType::Audio, SubMimeType::MP3))
    } else if s == "video/mp4"@ {
        Some((MainMimeType::Video, SubMimeType::MP4))
    } else if s == "video/mpeg"@ {
        Some((MainMimeType::Video, SubMimeType::MPEG))
    } else if s == "application/vnd.apple.installer+xml"@ {
        Some((MainMimeType::Application, SubMimeType::MPKG))
    } else if s == "application/vnd.oasis.opendocument.presentation"@ {
        Some((MainMimeType::Application, SubMimeType::ODP))
    } else if s == "application/vnd.oasis.opendocument.spreadsheet"@ {
        Some((MainMimeType::Application, SubMimeType::ODS))
    } else if s == "application/vnd.oasis.opendocument.text"@ {
        Some((MainMimeType::Application, SubMimeType::ODT))
    } else if s == "audio/ogg"@ {
        Some((MainMimeType::Audio, SubMimeType::OGA))
    } else if s == "video/ogg"@ {
        Some((MainMimeType::Video, SubMimeType::OGV))
    } else if s == "application/ogg"@ {
        Some((MainMimeType::Application, SubMimeType::OGX))
    } else if s == "font/otf"@ {
        Some((MainMimeType::Font, SubMimeType::OTF))
    } else if s == "image/png"@ {
        Some((MainMimeType::Image, SubMimeType::PNG))
    } else if s == "application/pdf"@ {
        Some((MainMimeType::Application, SubMimeType::PDF))
    } else if s == "application/x-httpd-php"@ {
        Some((MainMimeType::Application, SubMimeType::PHP))
    } else if s == "application/vnd.ms-powerpoint"@ {
        Some((MainMimeType::Application, SubMimeType::PPT))
    } else if s == "application/vnd.openxmlformats-officedocument.presentationml.presentation"@ {
        Some((MainMimeType::Application, SubMimeType::PPTX))
    } else if s == "application/vnd.rar"@ {
        Some((MainMimeType::Application, SubMimeType::RAR))
    } else if s == "application/rtf"@ {
        Some((MainMimeType::Application, SubMimeType::RTF))
    } else if s == "application/x-sh"@ {
        Some((MainMimeType::Application, SubMimeType::SH))
    } else if s == "image/svg+xml"@ {
        Some((MainMimeType::Image, SubMimeType::SVG))
    } else if s == "application/x-tar"@ {
        Some((MainMimeType::Application, SubMimeType::TAR))
    } else if s == "image/tiff"@ {
        Some((MainMimeType::Image, SubMimeType::TIF))
    } else if s == "video/mp2t"@ {
        Some((MainMimeType::Video, SubMimeType::TS))
    } else if s == "font/ttf"@ {
        Some((MainMimeType::Font, SubMimeType::TTF))
    } else if s == "text/plain"@ {
        Some((MainMimeType::Text, SubMimeType::TXT))
    } else if s == "application/vnd.visio"@ {
        Some((MainMimeType::Application, SubMimeType::VSD))
    } else if s == "audio/wav"@ {
        Some((MainMimeType::Audio, SubMimeType::WAV))
    } else if s == "audio/webm"@ {
        Some((MainMimeType::Audio, SubMimeType::WEBA))
    } else if s == "video/webm"@ {
        Some((MainMimeType::Video, SubMimeType::WEBM))
    } else if s == "image/webp"@ {
        Some((MainMimeType::Image, SubMimeType::WEBP))
    } else if s == "font/woff"@ {
        Some((MainMimeType::Font, SubMimeType::WOFF))
    } else if s == "font/woff2"@ {
        Some((MainMimeType::Font, SubMimeType::WOFF2))
    } else if s == "application/xhtml+xml"@ {
        Some((MainMimeType::Application, SubMimeType::XHTML))
    } else if s == "application/vnd.ms-excel"@ {
        Some((MainMimeType::Application, SubMimeType::XLS))
    } else if s == "application/vnd.openxmlformats-officedocument.spreadsheetml.sheet"@ {
        Some((MainMimeType::Application, SubMimeType::XLSX))
    } else if s == "application/xml"@ || s == "text/xml"@ || s == ".xml"@ || s == "application/atom+xml"@ {
        Some((MainMimeType::Application, SubMimeType::XML))
    } else if s == "application/vnd.mozilla.xul+xml"@ {
        Some((MainMimeType::Application, SubMimeType::XUL))
    } else if s == "application/zip"@ || s == ".zip"@ || s == "application/x-zip-compressed"@ {
        Some((MainMimeType::Application, SubMimeType::ZIP))
    } else if s == "video/3gpp"@ || s == "audio/3gpp"@ {
        Some((MainMimeType::Video, SubMimeType::_3GP))
    } else if s == "video/3gpp2"@ || s == "audio/3gpp2"@ {
        Some((MainMimeType::Video, SubMimeType::_3G2))
    } else if s == "application/x-7z-compressed"@ {
        Some((MainMimeType::Application, SubMimeType::_7Z))
    } else if s == "multipart/form-data"@ {
        Some((MainMimeType::Multipart, SubMimeType::FormData))
    } else {
        None
    }
}

impl MimeType {
    /// Reads a `type/subtype` token against the table of recognized
    /// media types; keeps the token as `original`.
    pub fn from_str(s: &str) -> (r: Result<MimeType, &'static str>)
        ensures
            match r {
                Ok(m) => mime_pair(s@) == Some((m.main_type, m.sub_type)) && m.original@ == s@,
                Err(_) => mime_pair(s@) is None,
            },
    {
        let pair =

        if str_eq(s, "audio/aac") {
            (MainMimeType::Audio, SubMimeType::AAC)
        } else if str_eq(s, "application/x-abiword") {
            (MainMimeType::Application, SubMimeType::ABW)
        } else if str_eq(s, "image/apng") {
            (MainMimeType::Image, SubMimeType::APNG)
        } else if str_eq(s, "application/x-freearc") {
            (MainMimeType::Application, SubMimeType::ARC)
        } else if str_eq(s, "image/avif") {
            (MainMimeType::Image, SubMimeType::AVIF)
        } else if str_eq(s, "video/x-msvideo") {
            (MainMimeType::Video, SubMimeType::AVI)
        } else if str_eq(s, "application/vnd.amazon.ebook") {
            (MainMimeType::Application, SubMimeType::AZW)
        } else if str_eq(s, "application/octet-stream") {
            (MainMimeType::Application, SubMimeType::BIN)
        } else if str_eq(s, "image/bmp") {
            (MainMimeType::Image, SubMimeType::BMP)
        } else if str_eq(s, "application/x-bzip") {
            (MainMimeType::Application, SubMimeType::BZ)
        } else if str_eq(s, "application/x-bzip2") {
            (MainMimeType::Application, SubMimeType::BZ2)
        } else if str_eq(s, "application/x-cdf") {
            (MainMimeType::Application, SubMimeType::CDA)
        } else if str_eq(s, "application/x-csh") {
            (MainMimeType::Application, SubMimeType::CSH)
        } else if str_eq(s, "text/css") {
            (MainMimeType::Text, SubMimeType::CSS)
        } else if str_eq(s, "text/csv") {
            (MainMimeType::Text, SubMimeType::CSV)
        } else if str_eq(s, "application/msword") {
            (MainMimeType::Application, SubMimeType::DOC)
        } else if str_eq(s, "application/vnd.openxmlformats-officedocument.wordprocessingml.document") {
            (MainMimeType::Application, SubMimeType::DOCX)
        } else if str_eq(s, "application/vnd.ms-fontobject") {
            (MainMimeType::Application, SubMimeType::EOT)
        } else if str_eq(s, "application/epub+zip") {
            (MainMimeType::Application, SubMimeType::EPUB)
        } else if str_eq(s, "application/gzip") || str_eq(s, ".gz") || str_eq(s, "application/x-gzip") {
            (MainMimeType::Application, SubMimeType::GZ)
        } else if str_eq(s, "image/gif") {
            (MainMimeType::Image, SubMimeType::GIF)
        } else if str_eq(s, "text/html") {
            (MainMimeType::Text, SubMimeType::HTM)
        } else if str_eq(s, "image/vnd.microsoft.icon") {
            (MainMimeType::Image, SubMimeType::ICO)
        } else if str_eq(s, "text/calendar") {
            (MainMimeType::Text, SubMimeType::ICS)
        } else if str_eq(s, "application/java-archive") {
            (MainMimeType::Application, SubMimeType::JAR)
        } else if str_eq(s, "image/jpeg") {
            (MainMimeType::Image, SubMimeType::JPEG)
        } else if str_eq(s, "text/javascript") {
            (MainMimeType::Text, SubMimeType::JS)
        } else if str_eq(s, "application/json") {
            (MainMimeType::Application, SubMimeType::JSON)
        } else if str_eq(s, "application/ld+json") {
            (MainMimeType::Application, SubMimeType::JSONLD)
        } else if str_eq(s, "audio/midi") || str_eq(s, "audio/x-midi") {
            (MainMimeType::Audio, SubMimeType::MID)
        } else if str_eq(s, "audio/mpeg") {
            (MainMimeType::Audio, SubMimeType::MP3)
        } else if str_eq(s, "video/mp4") {
            (MainMimeType::Video, SubMimeType::MP4)
        } else if str_eq(s, "video/mpeg") {
            (MainMimeType::Video, SubMimeType::MPEG)
        } else if str_eq(s, "application/vnd.apple.installer+xml") {
            (MainMimeType::Application, SubMimeType::MPKG)
        } else if str_eq(s, "application/vnd.oasis.opendocument.presentation") {
            (MainMimeType::Application, SubMimeType::ODP)
        } else if str_eq(s, "application/vnd.oasis.opendocument.spreadsheet") {
            (MainMimeType::Application, SubMimeType::ODS)
        } else if str_eq(s, "application/vnd.oasis.opendocument.text") {
            (MainMimeType::Application, SubMimeType::ODT)
        } else if str_eq(s, "audio/ogg") {
            (MainMimeType::Audio, SubMimeType::OGA)
        } else if str_eq(s, "video/ogg") {
            (MainMimeType::Video, SubMimeType::OGV)
        } else if str_eq(s, "application/ogg") {
            (MainMimeType::Application, SubMimeType::OGX)
        } else if str_eq(s, "font/otf") {
            (MainMimeType::Font, SubMimeType::OTF)
        } else if str_eq(s, "image/png") {
            (MainMimeType::Image, SubMimeType::PNG)
        } else if str_eq(s, "application/pdf") {
            (MainMimeType::Application, SubMimeType::PDF)
        } else if str_eq(s, "application/x-httpd-php") {
            (MainMimeType::Application, SubMimeType::PHP)
        } else if str_eq(s, "application/vnd.ms-powerpoint") {
            (MainMimeType::Application, SubMimeType::PPT)
        } else if str_eq(s, "application/vnd.openxmlformats-officedocument.presentationml.presentation") {
            (MainMimeType::Application, SubMimeType::PPTX)
        } else if str_eq(s, "application/vnd.rar") {
            (MainMimeType::Application, SubMimeType::RAR)
        } else if str_eq(s, "application/rtf") {
            (MainMimeType::Application, SubMimeType::RTF)
        } else if str_eq(s, "application/x-sh") {
            (MainMimeType::Application, SubMimeType::SH)
        } else if str_eq(s, "image/svg+xml") {
            (MainMimeType::Image, SubMimeType::SVG)
        } else if str_eq(s, "application/x-tar") {
            (MainMimeType::Application, SubMimeType::TAR)
        } else if str_eq(s, "image/tiff") {
            (MainMimeType::Image, SubMimeType::TIF)
        } else if str_eq(s, "video/mp2t") {
            (MainMimeType::Video, SubMimeType::TS)
        } else if str_eq(s, "font/ttf") {
            (MainMimeType::Font, SubMimeType::TTF)
        } else if str_eq(s, "text/plain") {
            (MainMimeType::Text, SubMimeType::TXT)
        } else if str_eq(s, "application/vnd.visio") {
            (MainMimeType::Application, SubMimeType::VSD)
        } else if str_eq(s, "audio/wav") {
            (MainMimeType::Audio, SubMimeType::WAV)
        } else if str_eq(s, "audio/webm") {
            (MainMimeType::Audio, SubMimeType::WEBA)
        } else if str_eq(s, "video/webm") {
            (MainMimeType::Video, SubMimeType::WEBM)
        } else if str_eq(s, "image/webp") {
            (MainMimeType::Image, SubMimeType::WEBP)
        } else if str_eq(s, "font/woff") {
            (MainMimeType::Font, SubMimeType::WOFF)
        } else if str_eq(s, "font/woff2") {
            (MainMimeType::Font, SubMimeType::WOFF2)
        } else if str_eq(s, "application/xhtml+xml") {
            (MainMimeType::Application, SubMimeType::XHTML)
        } else if str_eq(s, "application/vnd.ms-excel") {
            (MainMimeType::Application, SubMimeType::XLS)
        } else if str_eq(s, "application/vnd.openxmlformats-officedocument.spreadsheetml.sheet") {
            (MainMimeType::Application, SubMimeType::XLSX)
        } else if str_eq(s, "application/xml") || str_eq(s, "text/xml") || str_eq(s, ".xml") || str_eq(s, "application/atom+xml") {
            (MainMimeType::Application, SubMimeType::XML)
        } else if str_eq(s, "application/vnd.mozilla.xul+xml") {
            (MainMimeType::Application, SubMimeType::XUL)
        } else if str_eq(s, "application/zip") || str_eq(s, ".zip") || str_eq(s, "application/x-zip-compressed") {
            (MainMimeType::Application, SubMimeType::ZIP)
        } else if str_eq(s, "video/3gpp") || str_eq(s, "audio/3gpp") {
            (MainMimeType::Video, SubMimeType::_3GP)
        } else if str_eq(s, "video/3gpp2") || str_eq(s, "audio/3gpp2") {
            (MainMimeType::Video, SubMimeType::_3G2)
        } else if str_eq(s, "application/x-7z-compressed") {
            (MainMimeType::Application, SubMimeType::_7Z)
        } else if str_eq(s, "multipart/form-data") {
            (MainMimeType::Multipart, SubMimeType::FormData)
        } else {
            return Err("Not a valid MIME type");
        };
        Ok(MimeType { main_type: pair.0, sub_type: pair.1, original: s.to_owned() })
    }
}

} // verus!
