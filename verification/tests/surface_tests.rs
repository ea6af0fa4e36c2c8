use egit::assets::{releases_url, tags_url, GitHubAsset, GitHubRelease};
use egit::error::{get_error_message, DownloadError, FetchError, HttpFailure};
use egit::text::u64_to_decimal;

fn release(name: Option<&str>, published_at: Option<&str>, assets: Vec<GitHubAsset>) -> GitHubRelease {
    GitHubRelease {
        tag_name: String::from("v1.2.3"),
        name: name.map(String::from),
        published_at: published_at.map(String::from),
        assets,
    }
}

fn asset(name: &str, size: u64) -> GitHubAsset {
    GitHubAsset {
        name: String::from(name),
        browser_download_url: format!("https://example.invalid/{}", name),
        size,
    }
}

#[test]
fn decimal_rendering() {
    assert_eq!(u64_to_decimal(0), "0");
    assert_eq!(u64_to_decimal(7), "7");
    assert_eq!(u64_to_decimal(1234), "1234");
    assert_eq!(u64_to_decimal(1000000), "1000000");
    assert_eq!(u64_to_decimal(u64::MAX), "18446744073709551615");
}

#[test]
fn registry_urls() {
    assert_eq!(tags_url("rust-lang", "cargo"), "https://api.github.com/repos/rust-lang/cargo/tags");
    assert_eq!(
        releases_url("rust-lang", "cargo"),
        "https://api.github.com/repos/rust-lang/cargo/releases"
    );
}

#[test]
fn release_summary_with_all_fields() {
    let r = release(Some("Cargo 1.2.3"), Some("2024-01-31"), vec![asset("a", 1), asset("b", 2)]);
    assert_eq!(r.summary(), "v1.2.3 - Cargo 1.2.3 (published: 2024-01-31)\n  Assets: 2");
}

#[test]
fn release_summary_with_defaults() {
    let r = release(None, None, vec![]);
    assert_eq!(r.summary(), "v1.2.3 - Unnamed release (published: Unknown date)\n  Assets: 0");
}

#[test]
fn primary_asset_is_the_first_listed() {
    let r = release(None, None, vec![asset("first.tar.gz", 10), asset("second.zip", 20)]);
    let chosen = r.primary_asset().unwrap();
    assert_eq!(chosen.name, "first.tar.gz");
    assert_eq!(chosen.size, 10);
}

#[test]
fn primary_asset_of_empty_release_is_none() {
    let r = release(None, None, vec![]);
    assert!(r.primary_asset().is_none());
}

#[test]
fn whole_request_fault_messages() {
    assert_eq!(
        get_error_message(&HttpFailure::Timeout),
        "Connection timed out. Please check your network connection or try again later."
    );
    assert_eq!(
        get_error_message(&HttpFailure::Connect),
        "Failed to connect to GitHub. Please check your network connection."
    );
    assert_eq!(get_error_message(&HttpFailure::Status(404)), "GitHub returned an error: 404");
    assert_eq!(
        get_error_message(&HttpFailure::Other(String::from("the proxy refused"))),
        "An error occurred: the proxy refused"
    );
}

#[test]
fn fetch_error_descriptions() {
    assert_eq!(FetchError::Network.describe(), "network error");
    assert_eq!(FetchError::Http(503).describe(), "HTTP status 503");
    assert_eq!(FetchError::Io.describe(), "local I/O error");
    assert_eq!(
        FetchError::RangeNotHonored.describe(),
        "server did not honor the range request"
    );
}

#[test]
fn download_error_descriptions() {
    assert_eq!(DownloadError::InvalidPlan.describe(), "invalid range plan");
    assert_eq!(
        DownloadError::ChunkFailed { index: 2, cause: FetchError::Http(500) }.describe(),
        "chunk 2 failed: HTTP status 500"
    );
    assert_eq!(DownloadError::WriteFailed.describe(), "failed to write the output file");
}
