use llmnet::runtime::fetch::{
    cache_path_for_url, classify_path, huggingface_to_url, FetchError, PathType,
};

#[test]
fn test_classify_local_path() {
    assert_eq!(classify_path("/path/to/file"), PathType::Local);
    assert_eq!(classify_path("./relative/path"), PathType::Local);
    assert_eq!(classify_path("file.txt"), PathType::Local);
    assert_eq!(classify_path("tinyllama:1.1b"), PathType::Local);
}

#[test]
fn test_classify_remote_url() {
    assert_eq!(classify_path("http://example.com/file"), PathType::Remote);
    assert_eq!(classify_path("https://example.com/file"), PathType::Remote);
    assert_eq!(classify_path("HTTPS://EXAMPLE.COM/file"), PathType::Remote);
}

#[test]
fn test_classify_huggingface() {
    assert_eq!(
        classify_path("hf://TheBloke/model/file.gguf"),
        PathType::Huggingface
    );
    assert_eq!(
        classify_path("huggingface://org/repo/model.gguf"),
        PathType::Huggingface
    );
}

#[test]
fn test_huggingface_to_url() {
    let url =
        huggingface_to_url("hf://TheBloke/Llama-2-7B-GGUF/llama-2-7b.Q4_K_M.gguf").unwrap();
    assert_eq!(
        url,
        "https://huggingface.co/TheBloke/Llama-2-7B-GGUF/resolve/main/llama-2-7b.Q4_K_M.gguf"
    );

    let url2 = huggingface_to_url("huggingface://org/repo/file.bin").unwrap();
    assert_eq!(
        url2,
        "https://huggingface.co/org/repo/resolve/main/file.bin"
    );
}

#[test]
fn test_huggingface_to_url_invalid() {
    assert!(huggingface_to_url("hf://org/repo").is_err());
    assert!(huggingface_to_url("not-hf://org/repo/file").is_err());
}

#[test]
fn test_huggingface_nested_file_path() {
    assert_eq!(
        huggingface_to_url("hf://o/r/dir/sub/f.gguf").unwrap(),
        "https://huggingface.co/o/r/resolve/main/dir/sub/f.gguf"
    );
}

#[test]
fn test_huggingface_error_messages() {
    match huggingface_to_url("hf://org/repo") {
        Err(FetchError::InvalidUrl(m)) => {
            assert_eq!(m, "Huggingface reference must be org/repo/file: hf://org/repo")
        }
        _ => panic!("expected InvalidUrl"),
    }
    match huggingface_to_url("ftp://x/y/z") {
        Err(FetchError::InvalidUrl(m)) => assert_eq!(m, "ftp://x/y/z"),
        _ => panic!("expected InvalidUrl"),
    }
}

#[test]
fn test_classify_mixed_case_hf() {
    assert_eq!(classify_path("HF://a/b/c"), PathType::Huggingface);
}

#[test]
fn test_cache_path_deterministic() {
    let cache_dir = "/cache";
    let url = "https://example.com/model.gguf";

    let path1 = cache_path_for_url(url, cache_dir);
    let path2 = cache_path_for_url(url, cache_dir);

    assert_eq!(path1, path2);
}

#[test]
fn test_cache_path_preserves_extension() {
    let cache_dir = "/cache";

    let path_gguf = cache_path_for_url("https://example.com/model.gguf", cache_dir);
    assert!(path_gguf.ends_with(".gguf"));

    let path_bin = cache_path_for_url("https://example.com/model.bin", cache_dir);
    assert!(path_bin.ends_with(".bin"));
}

#[test]
fn test_cache_path_different_urls() {
    let cache_dir = "/cache";

    let path1 = cache_path_for_url("https://example.com/model1.gguf", cache_dir);
    let path2 = cache_path_for_url("https://example.com/model2.gguf", cache_dir);

    assert_ne!(path1, path2);
}

#[test]
fn cache_path_exact_names() {
    assert_eq!(
        cache_path_for_url("https://example.com/model.gguf", "/cache"),
        "/cache/8cc5f1f83d631cc0.gguf"
    );
    assert_eq!(
        cache_path_for_url("https://example.com/dir/noext", "/cache/"),
        "/cache/a5fefeacee52b972"
    );
    assert_eq!(
        cache_path_for_url("https://example.com/file.", "cache"),
        "cache/1a07687ea008cf65"
    );
}
