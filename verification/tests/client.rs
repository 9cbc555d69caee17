use capsula::client::{encode_file_path, CapsulaClient, file_url, run_url, upload_file_name, upload_url, vault_url, vaults_url};

#[test]
fn test_client_creation() {
    let client = CapsulaClient::new("http://localhost:8500");
    assert_eq!(client.base_url(), "http://localhost:8500");
}

#[test]
fn encode_file_path_keeps_segment_separators() {
    assert_eq!(encode_file_path("output/result.txt"), "output/result%2Etxt");
}

#[test]
fn encode_file_path_encodes_url_significant_and_non_ascii_chars() {
    assert_eq!(encode_file_path("a b?c#d%e"), "a%20b%3Fc%23d%25e");
    assert_eq!(encode_file_path("日本語.txt"), "%E6%97%A5%E6%9C%AC%E8%AA%9E%2Etxt");
}

#[test]
fn encode_file_path_encodes_backslash_and_keeps_empty_segments() {
    assert_eq!(encode_file_path("a\\b"), "a%5Cb");
    assert_eq!(encode_file_path("/x//y/"), "/x//y/");
    assert_eq!(encode_file_path(""), "");
}

#[test]
fn encode_file_path_keeps_alphanumerics() {
    assert_eq!(encode_file_path("Abc123/xyz"), "Abc123/xyz");
}

#[test]
fn request_urls_are_built_under_the_api_prefix() {
    let base = "http://localhost:8500";
    assert_eq!(run_url(base, "01ABC"), "http://localhost:8500/api/v1/runs/01ABC");
    assert_eq!(
        file_url(base, "01ABC", "out/a b.txt"),
        "http://localhost:8500/api/v1/runs/01ABC/files/out/a%20b%2Etxt"
    );
    assert_eq!(vaults_url(base), "http://localhost:8500/api/v1/vaults");
    assert_eq!(vault_url(base, "main"), "http://localhost:8500/api/v1/vaults/main");
    assert_eq!(upload_url(base), "http://localhost:8500/api/v1/upload");
}

#[test]
fn upload_file_name_is_the_local_file_name() {
    assert_eq!(upload_file_name("/tmp/run/output.csv"), "output.csv");
    assert_eq!(upload_file_name("relative/dir/x"), "x");
    assert_eq!(upload_file_name("/"), "file");
}
