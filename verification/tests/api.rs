use pf_core::api::{
    device_code_http_error, download_http_error, granted, invalid_json_error, is_json_content,
    map_token_error, normalize_base, unexpected_body_error, ApiClient, DeviceUser, DownloadInfo,
    TokenPoll, TokenResponse, DEFAULT_BASE_URL,
};
use pf_core::error::Error;
use pf_core::sim::Sim;

fn info(filename: &str, sim: Option<&str>, car: &str, track: Option<&str>) -> DownloadInfo {
    DownloadInfo {
        url: "u".to_string(),
        filename: filename.to_string(),
        sim: sim.map(|s| s.to_string()),
        car: car.to_string(),
        track: track.map(|t| t.to_string()),
        name: None,
    }
}

#[test]
fn token_error_codes_map_to_outcomes() {
    assert!(matches!(map_token_error("authorization_pending"), TokenPoll::Pending));
    assert!(matches!(map_token_error("slow_down"), TokenPoll::SlowDown));
    assert!(matches!(map_token_error("access_denied"), TokenPoll::Denied));
    assert!(matches!(map_token_error("expired_token"), TokenPoll::Expired));
    assert!(matches!(map_token_error("weird"), TokenPoll::Expired));
}

#[test]
fn download_info_reads_sim_and_track() {
    let legacy = info("baseline.sto", None, "ferrari296gt3", None);
    assert_eq!(legacy.resolved_sim(), Sim::IRacing);
    assert_eq!(legacy.track, None);

    let acc = info("quali.json", Some("acc"), "ferrari_488_gt3_evo", Some("spa"));
    assert_eq!(acc.resolved_sim(), Sim::Acc);
    assert_eq!(acc.track.as_deref(), Some("spa"));
}

#[test]
fn resolved_sim_routes_by_file_format_when_tag_is_wrong_or_missing() {
    let untagged = info("quali_spa.json", None, "f488", None);
    assert_eq!(untagged.resolved_sim(), Sim::Acc);

    let mistagged = info("quali.json", Some("iracing"), "c", None);
    assert_eq!(mistagged.resolved_sim(), Sim::Acc);

    let junk = info("race.svm", Some("lemans"), "c", None);
    assert_eq!(junk.resolved_sim(), Sim::Lmu);
    let cased = info("x.bin", Some("ACC"), "c", None);
    assert_eq!(cased.resolved_sim(), Sim::Acc);

    let bare = info("mystery.bin", None, "c", None);
    assert_eq!(bare.resolved_sim(), Sim::IRacing);
}

#[test]
fn base_url_normalized_and_joined() {
    let c = ApiClient::new("https://example.com/".to_string());
    assert_eq!(c.url("/api/device/code"), "https://example.com/api/device/code");
}

#[test]
fn absolutize_resolves_relative_but_leaves_absolute() {
    let c = ApiClient::new("https://www.parcferme.cc".to_string());
    assert_eq!(
        c.absolutize("/api/avatars/abc?v=123".to_string()),
        "https://www.parcferme.cc/api/avatars/abc?v=123"
    );
    assert_eq!(
        c.absolutize("api/avatars/abc".to_string()),
        "https://www.parcferme.cc/api/avatars/abc"
    );
    let cdn = "https://cdn.discordapp.com/avatars/1/2.png".to_string();
    assert_eq!(c.absolutize(cdn.clone()), cdn);
}

#[test]
fn statuses_map_to_typed_errors() {
    assert!(matches!(download_http_error(401, ""), Error::DeviceRevoked));
    assert!(matches!(download_http_error(403, "x"), Error::AccessDenied));
    assert!(matches!(download_http_error(404, ""), Error::SetupNotFound));
    assert!(matches!(download_http_error(500, ""), Error::Api(m) if m == "download failed (HTTP 500)"));
    assert!(matches!(download_http_error(429, "slow"), Error::Api(m) if m == "download failed (HTTP 429): slow"));
    assert!(matches!(
        device_code_http_error(404),
        Error::Api(m) if m == "server returned HTTP 404 for /api/device/code — is the ParcFermé desktop API deployed at this URL?"
    ));
    assert!(matches!(
        invalid_json_error(200, "EOF"),
        Error::Api(m) if m == "invalid JSON from server (HTTP 200): EOF"
    ));
}

#[test]
fn non_json_bodies_are_quoted_briefly() {
    assert!(is_json_content("application/json; charset=utf-8"));
    assert!(!is_json_content("text/html"));
    let body = "x".repeat(100);
    match unexpected_body_error(200, "text/html", &body) {
        Error::Api(m) => assert_eq!(
            m,
            format!(
                "expected JSON but got HTTP 200 (text/html). Is the desktop API deployed at this URL? Response began: \"{}\"",
                "x".repeat(80)
            )
        ),
        other => panic!("unexpected {other:?}"),
    }
}

#[test]
fn granted_tokens_carry_absolute_avatars() {
    let c = ApiClient::new("https://www.parcferme.cc/".to_string());
    let token = TokenResponse {
        access_token: "tok".to_string(),
        user: Some(DeviceUser {
            id: "u1".to_string(),
            name: Some("Finn".to_string()),
            image: Some("/api/avatars/u1".to_string()),
        }),
    };
    match granted(token, &c) {
        TokenPoll::Granted(t) => {
            assert_eq!(t.access_token, "tok");
            let u = t.user.unwrap();
            assert_eq!(u.image.as_deref(), Some("https://www.parcferme.cc/api/avatars/u1"));
            assert_eq!(u.name.as_deref(), Some("Finn"));
        }
        other => panic!("unexpected {other:?}"),
    }
    assert_eq!(normalize_base("https://x///".to_string()), "https://x");
    assert_eq!(c.base_url(), "https://www.parcferme.cc");
}

#[test]
fn the_default_origin_is_the_canonical_www_host() {
    assert_eq!(DEFAULT_BASE_URL, "https://www.parcferme.cc");
}
