//! Peer device descriptors and the endpoint's own settings.
use vstd::prelude::*;

verus! {

/// Kind of a peer device, as carried in discovery and prepare requests.
#[derive(Clone, Copy, Debug, PartialEq, Eq, Structural)]
pub enum DeviceType {
    Mobile,
    Desktop,
    Web,
    Headless,
    Server,
}

impl Default for DeviceType {
    /// Unknown device kinds degrade to `Desktop`.
    fn default() -> (r: Self)
        ensures
            r == DeviceType::Desktop,
    {
        DeviceType::Desktop
    }
}

/// Transport scheme announced by a peer.
#[derive(Clone, Copy, Debug, PartialEq, Eq, Structural)]
pub enum ProtocolType {
    Http,
    Https,
}

/// A peer as seen by this endpoint. Identity is the `fingerprint`.
#[derive(Debug, PartialEq)]
pub struct Device {
    pub ip: String,
    pub version: String,
    pub port: u16,
    pub https: bool,
    pub fingerprint: String,
    pub alias: String,
    pub device_model: Option<String>,
    pub device_type: DeviceType,
    pub download: bool,
}

/// Mathematical image of a [`Device`]: every string as a character sequence.
pub ghost struct DeviceView {
    pub ip: Seq<char>,
    pub version: Seq<char>,
    pub port: u16,
    pub https: bool,
    pub fingerprint: Seq<char>,
    pub alias: Seq<char>,
    pub device_model: Option<Seq<char>>,
    pub device_type: DeviceType,
    pub download: bool,
}

impl View for Device {
    type V = DeviceView;

    open spec fn view(&self) -> DeviceView {
        DeviceView {
            ip: self.ip@,
            version: self.version@,
            port: self.port,
            https: self.https,
            fingerprint: self.fingerprint@,
            alias: self.alias@,
            device_model: self.device_model.deep_view(),
            device_type: self.device_type,
            download: self.download,
        }
    }
}

impl Clone for Device {
    fn clone(&self) -> (r: Self)
        ensures
            r == *self,
    {
        Device {
            ip: self.ip.clone(),
            version: self.version.clone(),
            port: self.port,
            https: self.https,
            fingerprint: self.fingerprint.clone(),
            alias: self.alias.clone(),
            device_model: crate::dto::clone_opt_string(&self.device_model),
            device_type: self.device_type,
            download: self.download,
        }
    }
}

/// Field-by-field equality of two devices.
pub fn device_eq(a: &Device, b: &Device) -> (r: bool)
    ensures
        r == (a@ == b@),
{
    let model_eq = match (&a.device_model, &b.device_model) {
        (Some(x), Some(y)) => crate::text::str_eq(x.as_str(), y.as_str()),
        (None, None) => true,
        _ => false,
    };
    let r = model_eq && crate::text::str_eq(a.ip.as_str(), b.ip.as_str())
        && crate::text::str_eq(a.version.as_str(), b.version.as_str()) && a.port == b.port
        && a.https == b.https && crate::text::str_eq(
        a.fingerprint.as_str(),
        b.fingerprint.as_str(),
    ) && crate::text::str_eq(a.alias.as_str(), b.alias.as_str()) && a.device_type == b.device_type
        && a.download == b.download;
    proof {
        if r {
            assert(a@ == b@);
        }
    }
    r
}

/// Name of the platform this endpoint reports as its device model.
pub fn device_model() -> (r: String)
    ensures
        r@ == "Linux"@,
{
    String::from_str("Linux")
}

/// Receiver policy: where incoming files are written, and whether all
/// offered files are accepted without asking.
#[derive(Clone, Debug)]
pub struct Settings {
    pub destination: String,
    pub quick_save: bool,
}

impl Default for Settings {
    fn default() -> (r: Self)
        ensures
            r.destination@ == "."@,
            r.quick_save == false,
    {
        Settings { destination: String::from_str("."), quick_save: false }
    }
}

} // verus!
