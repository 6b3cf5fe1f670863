use localsend_core::device::{Device, DeviceType};
use localsend_core::route::ApiRoute;

fn peer(version: &str, https: bool) -> Device {
    Device {
        ip: "192.168.1.9".to_string(),
        version: version.to_string(),
        port: 53317,
        https,
        fingerprint: "fp".to_string(),
        alias: "peer".to_string(),
        device_model: None,
        device_type: DeviceType::Desktop,
        download: false,
    }
}

#[test]
fn routes_by_version() {
    assert_eq!(ApiRoute::PrepareUpload.v1(), "/api/localsend/v1/send-request");
    assert_eq!(ApiRoute::Upload.v1(), "/api/localsend/v1/send");
    assert_eq!(ApiRoute::Cancel.v1(), "/api/localsend/v1/cancel");
    assert_eq!(ApiRoute::PrepareUpload.v2(), "/api/localsend/v2/prepare-upload");
    assert_eq!(ApiRoute::Upload.v2(), "/api/localsend/v2/upload");
    assert_eq!(ApiRoute::Cancel.v2(), "/api/localsend/v2/cancel");
}

#[test]
fn unknown_version_degrades_to_v1_route() {
    // only "2.0" selects the version 2 routes; everything else falls back
    assert_eq!(ApiRoute::Upload.route("1.0"), "/api/localsend/v1/send");
    assert_eq!(ApiRoute::Upload.route("2.0"), "/api/localsend/v2/upload");
    assert_eq!(ApiRoute::Upload.route("3.1"), "/api/localsend/v1/send");
    assert_eq!(ApiRoute::Upload.route(""), "/api/localsend/v1/send");
    assert_eq!(
        ApiRoute::PrepareUpload.target(&peer("3.1", false)),
        "http://192.168.1.9:53317/api/localsend/v1/send-request"
    );
}

#[test]
fn target_urls() {
    // every operation under both versions, over both schemes
    assert_eq!(
        ApiRoute::PrepareUpload.target(&peer("1.0", false)),
        "http://192.168.1.9:53317/api/localsend/v1/send-request"
    );
    assert_eq!(
        ApiRoute::Upload.target(&peer("1.0", false)),
        "http://192.168.1.9:53317/api/localsend/v1/send"
    );
    assert_eq!(
        ApiRoute::Cancel.target(&peer("1.0", false)),
        "http://192.168.1.9:53317/api/localsend/v1/cancel"
    );
    assert_eq!(
        ApiRoute::PrepareUpload.target(&peer("2.0", true)),
        "https://192.168.1.9:53317/api/localsend/v2/prepare-upload"
    );
    assert_eq!(
        ApiRoute::Upload.target(&peer("2.0", true)),
        "https://192.168.1.9:53317/api/localsend/v2/upload"
    );
    assert_eq!(
        ApiRoute::Cancel.target(&peer("2.0", true)),
        "https://192.168.1.9:53317/api/localsend/v2/cancel"
    );
}

#[test]
fn target_raw_parts() {
    assert_eq!(
        ApiRoute::Upload.target_raw("10.0.0.7", 1024, false, "2.0"),
        "http://10.0.0.7:1024/api/localsend/v2/upload"
    );
}
