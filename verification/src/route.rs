//! Route resolver: maps an operation and a protocol version to the HTTP
//! path, and builds the absolute target URL of a peer.
use vstd::prelude::*;

use crate::device::Device;
use crate::text::{dec_of, str_eq};

verus! {

/// The three operations of the wire protocol.
#[derive(Clone, Copy, Debug, PartialEq, Eq, Structural)]
pub enum ApiRoute {
    PrepareUpload,
    Upload,
    Cancel,
}

impl ApiRoute {
    /// Path segment of this operation under version 1.
    pub open spec fn spec_v1_path(self) -> Seq<char> {
        match self {
            ApiRoute::PrepareUpload => "send-request"@,
            ApiRoute::Upload => "send"@,
            ApiRoute::Cancel => "cancel"@,
        }
    }

    /// Path segment of this operation under version 2.
    pub open spec fn spec_v2_path(self) -> Seq<char> {
        match self {
            ApiRoute::PrepareUpload => "prepare-upload"@,
            ApiRoute::Upload => "upload"@,
            ApiRoute::Cancel => "cancel"@,
        }
    }

    /// Full route of this operation: version 2 exactly for the version
    /// string "2.0"; every other version string — "1.0" and anything
    /// unrecognized — degrades to version 1.
    pub open spec fn spec_route(self, version: Seq<char>) -> Seq<char> {
        if version == "2.0"@ {
            "/api/localsend/v2/"@ + self.spec_v2_path()
        } else {
            "/api/localsend/v1/"@ + self.spec_v1_path()
        }
    }

    /// Absolute target URL for a peer given by its parts:
    /// `{http|https}://{ip}:{port}{route}`.
    pub open spec fn spec_target(
        self,
        ip: Seq<char>,
        port: u16,
        https: bool,
        version: Seq<char>,
    ) -> Seq<char> {
        (if https {
            "https"@
        } else {
            "http"@
        }) + "://"@ + ip + ":"@ + dec_of(port as nat) + self.spec_route(version)
    }

    fn path_v1(&self) -> (r: &'static str)
        ensures
            r@ == self.spec_v1_path(),
    {
        match self {
            ApiRoute::PrepareUpload => "send-request",
            ApiRoute::Upload => "send",
            ApiRoute::Cancel => "cancel",
        }
    }

    fn path_v2(&self) -> (r: &'static str)
        ensures
            r@ == self.spec_v2_path(),
    {
        match self {
            ApiRoute::PrepareUpload => "prepare-upload",
            ApiRoute::Upload => "upload",
            ApiRoute::Cancel => self.path_v1(),
        }
    }

    /// The route under the given version string.
    pub fn route(&self, version: &str) -> (r: String)
        ensures
            r@ == self.spec_route(version@),
    {
        let mut s = String::new();
        if str_eq(version, "2.0") {
            s.append("/api/localsend/v2/");
            s.append(self.path_v2());
        } else {
            s.append("/api/localsend/v1/");
            s.append(self.path_v1());
        }
        proof {
            assert(s@ =~= self.spec_route(version@));
        }
        s
    }

    /// The version 1 route of this operation.
    pub fn v1(&self) -> (r: String)
        ensures
            r@ == self.spec_route("1.0"@),
            r@ == "/api/localsend/v1/"@ + self.spec_v1_path(),
    {
        proof {
            reveal_strlit("1.0");
            reveal_strlit("2.0");
            assert("2.0"@[0] == '2' && "1.0"@[0] == '1');
            assert("1.0"@ != "2.0"@);
        }
        self.route("1.0")
    }

    /// The version 2 route of this operation.
    pub fn v2(&self) -> (r: String)
        ensures
            r@ == self.spec_route("2.0"@),
            r@ == "/api/localsend/v2/"@ + self.spec_v2_path(),
    {
        self.route("2.0")
    }

    /// Absolute target URL of the peer `device` for this operation.
    pub fn target(&self, device: &Device) -> (r: String)
        ensures
            r@ == self.spec_target(device.ip@, device.port, device.https, device.version@),
    {
        self.target_raw(device.ip.as_str(), device.port, device.https, device.version.as_str())
    }

    /// Absolute target URL from the peer's parts.
    pub fn target_raw(&self, ip: &str, port: u16, https: bool, version: &str) -> (r: String)
        ensures
            r@ == self.spec_target(ip@, port, https, version@),
    {
        let mut s = String::new();
        if https {
            s.append("https");
        } else {
            s.append("http");
        }
        s.append("://");
        s.append(ip);
        s.append(":");
        crate::text::append_u64(&mut s, port as u64);
        let route = self.route(version);
        s.append(route.as_str());
        proof {
            assert(s@ =~= self.spec_target(ip@, port, https, version@));
        }
        s
    }
}

} // verus!
