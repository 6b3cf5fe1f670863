//! Wire data types of the protocol: the multicast announcement, the device
//! registration embedded in prepare requests, file descriptors, and the
//! prepare-upload request/response bodies.
use vstd::prelude::*;

use crate::device::{Device, DeviceType, DeviceView, ProtocolType};
use crate::text::str_eq;

verus! {

/// Category of a transferred file, derived from its MIME type.
#[derive(Clone, Copy, Debug, PartialEq, Eq, Structural)]
pub enum FileType {
    Image,
    Video,
    Pdf,
    Text,
    Apk,
    Other,
}

impl Default for FileType {
    fn default() -> (r: Self)
        ensures
            r == FileType::Other,
    {
        FileType::Other
    }
}

/// The category a MIME string maps to: `image/*` and the bare word `image`
/// map to `Image`, and so on; `application/pdf` and the android package
/// MIME map to `Pdf` and `Apk`; everything else is `Other`.
pub open spec fn spec_file_type_of_mime(m: Seq<char>) -> FileType {
    if "image/"@.is_prefix_of(m) || m == "image"@ {
        FileType::Image
    } else if "video/"@.is_prefix_of(m) || m == "video"@ {
        FileType::Video
    } else if m == "application/pdf"@ || m == "pdf"@ {
        FileType::Pdf
    } else if "text/"@.is_prefix_of(m) || m == "text"@ {
        FileType::Text
    } else if m == "application/vnd.android.package-archive"@ || m == "apk"@ {
        FileType::Apk
    } else {
        FileType::Other
    }
}

/// The lowercase name a category is written as on the wire.
pub open spec fn spec_file_type_name(t: FileType) -> Seq<char> {
    match t {
        FileType::Image => "image"@,
        FileType::Video => "video"@,
        FileType::Pdf => "pdf"@,
        FileType::Text => "text"@,
        FileType::Apk => "apk"@,
        FileType::Other => "other"@,
    }
}

/// Whether `p` is a prefix of `s`, by characters.
pub fn str_starts_with(s: &str, p: &str) -> (r: bool)
    ensures
        r == p@.is_prefix_of(s@),
{
    let s_len = s.unicode_len();
    let p_len = p.unicode_len();
    if p_len > s_len {
        proof {
            assert(!p@.is_prefix_of(s@));
        }
        return false;
    }
    let mut i: usize = 0;
    while i < p_len
        invariant
            i <= p_len,
            p_len == p@.len(),
            s_len == s@.len(),
            p_len <= s_len,
            forall|j: int| 0 <= j < i ==> s@[j] == p@[j],
        decreases p_len - i,
    {
        if s.get_char(i) != p.get_char(i) {
            proof {
                assert(s@.subrange(0, p@.len() as int)[i as int] == s@[i as int]);
                assert(!p@.is_prefix_of(s@));
            }
            return false;
        }
        i += 1;
    }
    proof {
        assert(s@.subrange(0, p@.len() as int) =~= p@);
    }
    true
}

impl FileType {
    /// Category of a MIME string.
    pub fn from_mime(m: &str) -> (t: FileType)
        ensures
            t == spec_file_type_of_mime(m@),
    {
        proof {
            reveal_strlit("image/");
            reveal_strlit("image");
            reveal_strlit("video/");
            reveal_strlit("video");
            reveal_strlit("application/pdf");
            reveal_strlit("pdf");
            reveal_strlit("text/");
            reveal_strlit("text");
            reveal_strlit("application/vnd.android.package-archive");
            reveal_strlit("apk");
        }
        if str_starts_with(m, "image/") || str_eq(m, "image") {
            FileType::Image
        } else if str_starts_with(m, "video/") || str_eq(m, "video") {
            FileType::Video
        } else if str_eq(m, "application/pdf") || str_eq(m, "pdf") {
            FileType::Pdf
        } else if str_starts_with(m, "text/") || str_eq(m, "text") {
            FileType::Text
        } else if str_eq(m, "application/vnd.android.package-archive") || str_eq(m, "apk") {
            FileType::Apk
        } else {
            FileType::Other
        }
    }

    /// The lowercase wire name of this category.
    pub fn wire_name(&self) -> (r: &'static str)
        ensures
            r@ == spec_file_type_name(*self),
    {
        match self {
            FileType::Image => "image",
            FileType::Video => "video",
            FileType::Pdf => "pdf",
            FileType::Text => "text",
            FileType::Apk => "apk",
            FileType::Other => "other",
        }
    }
}

/// A file offered for transfer. `id` is unique inside a session; `preview`
/// may carry the inline text payload of a `Text` file.
#[derive(Debug)]
pub struct FileDto {
    pub id: String,
    pub file_name: String,
    pub size: u64,
    pub file_type: FileType,
    pub hash: Option<String>,
    pub preview: Option<String>,
}

/// Mathematical image of a [`FileDto`].
pub ghost struct FileDtoView {
    pub id: Seq<char>,
    pub file_name: Seq<char>,
    pub size: u64,
    pub file_type: FileType,
    pub hash: Option<Seq<char>>,
    pub preview: Option<Seq<char>>,
}

impl View for FileDto {
    type V = FileDtoView;

    open spec fn view(&self) -> FileDtoView {
        FileDtoView {
            id: self.id@,
            file_name: self.file_name@,
            size: self.size,
            file_type: self.file_type,
            hash: self.hash.deep_view(),
            preview: self.preview.deep_view(),
        }
    }
}

impl DeepView for FileDto {
    type V = FileDtoView;

    open spec fn deep_view(&self) -> FileDtoView {
        self.view()
    }
}

impl Clone for FileDto {
    fn clone(&self) -> (r: Self)
        ensures
            r == *self,
    {
        FileDto {
            id: self.id.clone(),
            file_name: self.file_name.clone(),
            size: self.size,
            file_type: self.file_type,
            hash: clone_opt_string(&self.hash),
            preview: clone_opt_string(&self.preview),
        }
    }
}

/// A copy of an optional string.
pub fn clone_opt_string(s: &Option<String>) -> (r: Option<String>)
    ensures
        r == *s,
{
    match s {
        Some(x) => Some(x.clone()),
        None => None,
    }
}

/// The device registration sent inside a prepare-upload request. Fields
/// marked optional were introduced by version 2 of the protocol.
#[derive(Debug)]
pub struct RegisterDto {
    pub alias: String,
    pub version: Option<String>,
    pub device_model: Option<String>,
    pub device_type: Option<DeviceType>,
    pub fingerprint: String,
    pub port: Option<u16>,
    pub protocol: Option<ProtocolType>,
    pub download: Option<bool>,
}

/// Mathematical image of a [`RegisterDto`].
pub ghost struct RegisterDtoView {
    pub alias: Seq<char>,
    pub version: Option<Seq<char>>,
    pub device_model: Option<Seq<char>>,
    pub device_type: Option<DeviceType>,
    pub fingerprint: Seq<char>,
    pub port: Option<u16>,
    pub protocol: Option<ProtocolType>,
    pub download: Option<bool>,
}

impl View for RegisterDto {
    type V = RegisterDtoView;

    open spec fn view(&self) -> RegisterDtoView {
        RegisterDtoView {
            alias: self.alias@,
            version: self.version.deep_view(),
            device_model: self.device_model.deep_view(),
            device_type: self.device_type,
            fingerprint: self.fingerprint@,
            port: self.port,
            protocol: self.protocol,
            download: self.download,
        }
    }
}

/// The device a registration resolves to, given the transport-supplied
/// address and the fallbacks for absent fields: version defaults to "1.0",
/// the port to `own_port`, the scheme to `own_https`, the device type to
/// `Desktop`, and `download` to `false`.
pub open spec fn spec_resolve_device(
    alias: Seq<char>,
    version: Option<Seq<char>>,
    device_model: Option<Seq<char>>,
    device_type: Option<DeviceType>,
    fingerprint: Seq<char>,
    port: Option<u16>,
    protocol: Option<ProtocolType>,
    download: Option<bool>,
    ip: Seq<char>,
    own_port: u16,
    own_https: bool,
) -> DeviceView {
    DeviceView {
        ip: ip,
        version: match version {
            Some(v) => v,
            None => "1.0"@,
        },
        port: match port {
            Some(p) => p,
            None => own_port,
        },
        https: match protocol {
            Some(p) => p == ProtocolType::Https,
            None => own_https,
        },
        fingerprint: fingerprint,
        alias: alias,
        device_model: device_model,
        device_type: match device_type {
            Some(t) => t,
            None => DeviceType::Desktop,
        },
        download: match download {
            Some(d) => d,
            None => false,
        },
    }
}

impl RegisterDtoView {
    /// The device this registration stands for, resolved against the
    /// transport address and our own defaults.
    pub open spec fn spec_to_device(self, ip: Seq<char>, own_port: u16, own_https: bool) -> DeviceView {
        spec_resolve_device(
            self.alias,
            self.version,
            self.device_model,
            self.device_type,
            self.fingerprint,
            self.port,
            self.protocol,
            self.download,
            ip,
            own_port,
            own_https,
        )
    }
}

impl RegisterDto {
    /// Resolves this registration to a device, with `ip` from the transport
    /// and our own port and scheme as fallbacks.
    pub fn to_device(self, ip: String, own_port: u16, own_https: bool) -> (d: Device)
        ensures
            d@ == self@.spec_to_device(ip@, own_port, own_https),
    {
        Device {
            ip,
            version: match self.version {
                Some(v) => v,
                None => String::from_str("1.0"),
            },
            port: match self.port {
                Some(p) => p,
                None => own_port,
            },
            https: match self.protocol {
                Some(p) => match p {
                    ProtocolType::Https => true,
                    ProtocolType::Http => false,
                },
                None => own_https,
            },
            fingerprint: self.fingerprint,
            alias: self.alias,
            device_model: self.device_model,
            device_type: match self.device_type {
                Some(t) => t,
                None => DeviceType::Desktop,
            },
            download: match self.download {
                Some(d) => d,
                None => false,
            },
        }
    }

    /// The registration a device announces of itself: every optional field
    /// populated.
    pub open spec fn spec_of_device(d: DeviceView) -> RegisterDtoView {
        RegisterDtoView {
            alias: d.alias,
            version: Some(d.version),
            device_model: d.device_model,
            device_type: Some(d.device_type),
            fingerprint: d.fingerprint,
            port: Some(d.port),
            protocol: Some(
                if d.https {
                    ProtocolType::Https
                } else {
                    ProtocolType::Http
                },
            ),
            download: Some(d.download),
        }
    }

    /// Builds the registration of `value`, the own device.
    pub fn of_device(value: Device) -> (r: Self)
        ensures
            r@ == Self::spec_of_device(value@),
    {
        RegisterDto {
            alias: value.alias,
            version: Some(value.version),
            device_model: value.device_model,
            device_type: Some(value.device_type),
            fingerprint: value.fingerprint,
            port: Some(value.port),
            protocol: Some(
                if value.https {
                    ProtocolType::Https
                } else {
                    ProtocolType::Http
                },
            ),
            download: Some(value.download),
        }
    }
}

/// The multicast presence datagram. Version 1 peers populate
/// `announcement`; version 2 peers populate `announce`, `version`, `port`
/// and `protocol`.
#[derive(Clone, Debug)]
pub struct MulticastDto {
    pub alias: String,
    pub version: Option<String>,
    pub device_model: Option<String>,
    pub device_type: Option<DeviceType>,
    pub fingerprint: String,
    pub port: Option<u16>,
    pub protocol: Option<ProtocolType>,
    pub download: Option<bool>,
    pub announcement: Option<bool>,
    pub announce: Option<bool>,
}

/// Mathematical image of a [`MulticastDto`].
pub ghost struct MulticastDtoView {
    pub alias: Seq<char>,
    pub version: Option<Seq<char>>,
    pub device_model: Option<Seq<char>>,
    pub device_type: Option<DeviceType>,
    pub fingerprint: Seq<char>,
    pub port: Option<u16>,
    pub protocol: Option<ProtocolType>,
    pub download: Option<bool>,
    pub announcement: Option<bool>,
    pub announce: Option<bool>,
}

impl View for MulticastDto {
    type V = MulticastDtoView;

    open spec fn view(&self) -> MulticastDtoView {
        MulticastDtoView {
            alias: self.alias@,
            version: self.version.deep_view(),
            device_model: self.device_model.deep_view(),
            device_type: self.device_type,
            fingerprint: self.fingerprint@,
            port: self.port,
            protocol: self.protocol,
            download: self.download,
            announcement: self.announcement,
            announce: self.announce,
        }
    }
}

impl MulticastDto {
    /// A version 1 announcement: no version, port or protocol fields.
    pub fn v1(
        alias: String,
        device_model: Option<String>,
        device_type: DeviceType,
        fingerprint: String,
        announcement: bool,
    ) -> (r: Self)
        ensures
            r@ == (MulticastDtoView {
                alias: alias@,
                version: None,
                device_model: device_model.deep_view(),
                device_type: Some(device_type),
                fingerprint: fingerprint@,
                port: None,
                protocol: None,
                download: None,
                announcement: Some(announcement),
                announce: None,
            }),
    {
        MulticastDto {
            alias,
            version: None,
            device_model,
            device_type: Some(device_type),
            fingerprint,
            port: None,
            protocol: None,
            download: None,
            announcement: Some(announcement),
            announce: None,
        }
    }

    /// A version 2 announcement: version "2.0", the HTTP port, the plain
    /// scheme, and — for mixed networks — both announcement flags
    /// populated.
    pub fn v2(
        alias: String,
        device_model: Option<String>,
        device_type: DeviceType,
        fingerprint: String,
        port: u16,
        announcement: bool,
    ) -> (r: Self)
        ensures
            r@ == (MulticastDtoView {
                alias: alias@,
                version: Some("2.0"@),
                device_model: device_model.deep_view(),
                device_type: Some(device_type),
                fingerprint: fingerprint@,
                port: Some(port),
                protocol: Some(ProtocolType::Http),
                download: None,
                announcement: Some(announcement),
                announce: Some(announcement),
            }),
    {
        MulticastDto {
            alias,
            version: Some(String::from_str("2.0")),
            device_model,
            device_type: Some(device_type),
            fingerprint,
            port: Some(port),
            protocol: Some(ProtocolType::Http),
            download: None,
            announcement: Some(announcement),
            announce: Some(announcement),
        }
    }

    /// The device this announcement stands for, resolved as a registration
    /// is.
    pub open spec fn spec_to_device(self_view: MulticastDtoView, ip: Seq<char>, own_port: u16, own_https: bool) -> DeviceView {
        spec_resolve_device(
            self_view.alias,
            self_view.version,
            self_view.device_model,
            self_view.device_type,
            self_view.fingerprint,
            self_view.port,
            self_view.protocol,
            self_view.download,
            ip,
            own_port,
            own_https,
        )
    }

    /// Resolves this announcement to a device, with `ip` from the datagram
    /// source and our own port and scheme as fallbacks.
    pub fn to_device(self, ip: String, own_port: u16, own_https: bool) -> (d: Device)
        ensures
            d@ == Self::spec_to_device(self@, ip@, own_port, own_https),
    {
        Device {
            ip,
            version: match self.version {
                Some(v) => v,
                None => String::from_str("1.0"),
            },
            port: match self.port {
                Some(p) => p,
                None => own_port,
            },
            https: match self.protocol {
                Some(p) => match p {
                    ProtocolType::Https => true,
                    ProtocolType::Http => false,
                },
                None => own_https,
            },
            fingerprint: self.fingerprint,
            alias: self.alias,
            device_model: self.device_model,
            device_type: match self.device_type {
                Some(t) => t,
                None => DeviceType::Desktop,
            },
            download: match self.download {
                Some(d) => d,
                None => false,
            },
        }
    }
}

/// Body of a prepare-upload request: who sends, and the offered files.
#[derive(Clone, Debug)]
pub struct PrepareUploadRequestDto {
    pub info: RegisterDto,
    pub files: Vec<FileDto>,
}

/// Mathematical image of a [`PrepareUploadRequestDto`].
pub ghost struct PrepareUploadRequestDtoView {
    pub info: RegisterDtoView,
    pub files: Seq<FileDtoView>,
}

impl View for PrepareUploadRequestDto {
    type V = PrepareUploadRequestDtoView;

    open spec fn view(&self) -> PrepareUploadRequestDtoView {
        PrepareUploadRequestDtoView { info: self.info@, files: self.files.deep_view() }
    }
}

/// Body of a version 2 prepare-upload response: the receiver's session id
/// and one token per accepted file. A version 1 response body is the bare
/// `files` map without the envelope.
#[derive(Clone, Debug)]
pub struct PrepareUploadResponseDto {
    pub session_id: String,
    pub files: Vec<(String, String)>,
}

/// Mathematical image of a [`PrepareUploadResponseDto`]: the token map as
/// an ordered sequence of `(file_id, token)` pairs.
pub ghost struct PrepareUploadResponseDtoView {
    pub session_id: Seq<char>,
    pub files: Seq<(Seq<char>, Seq<char>)>,
}

impl View for PrepareUploadResponseDto {
    type V = PrepareUploadResponseDtoView;

    open spec fn view(&self) -> PrepareUploadResponseDtoView {
        PrepareUploadResponseDtoView {
            session_id: self.session_id@,
            files: self.files.deep_view(),
        }
    }
}

} // verus!
