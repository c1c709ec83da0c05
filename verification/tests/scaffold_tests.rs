//! The home path, the repository probe, and the HTTP client interface.

use warp_keys::home::Home;
use warp_keys::http::{HttpClient, RequestError};
use warp_keys::repo::{DirProbe, Repo, RepoLoadError};

#[test]
fn home_paths() {
    let home = Home::new(String::from("/home/user"));
    assert_eq!(home.root(), "/home/user/.warp");
    assert_eq!(home.config(), "/home/user/.warp/config.yml");
}

#[test]
fn repo_load_decides_on_the_probe() {
    assert!(Repo::load(DirProbe::Directory).is_ok());
    assert!(matches!(Repo::load(DirProbe::Missing), Err(RepoLoadError::NotWarpRepo)));
    assert!(matches!(Repo::load(DirProbe::NotDirectory), Err(RepoLoadError::NotWarpRepo)));
    match Repo::load(DirProbe::Inaccessible(String::from("permission denied"))) {
        Err(RepoLoadError::GetMetaDataFailed(cause)) => assert_eq!(cause, "permission denied"),
        _ => panic!("an unreadable probe must surface its cause"),
    }
}

#[test]
fn request_accepts_http_urls() {
    let client = HttpClient::new().expect("the portable client always constructs");
    let req = client.request("https://api.warpgate.sh/sync").expect("https is accepted");
    assert_eq!(req.url(), "https://api.warpgate.sh/sync");
    assert!(client.request("http://localhost:8080/x").is_ok());
}

#[test]
fn request_rejects_other_urls() {
    let client = HttpClient::new().expect("the portable client always constructs");
    assert!(matches!(client.request("ftp://host/file"), Err(RequestError::NotHttp)));
    assert!(matches!(client.request("mailto:a@b"), Err(RequestError::NotHttp)));
    assert!(matches!(client.request(""), Err(RequestError::NotHttp)));
}
