//! Classification of model sources and Huggingface reference resolution.
use vstd::prelude::*;

use sha2::{Digest, Sha256};
use vstd::string::StringSliceAdditionalSpecFns;

use crate::text::{
    chars_of, find_char, find_char_exec, has_char, has_char_exec, lowercase, lowercase_chars,
    push_all, push_str, slice_chars, starts_with, starts_with_exec, string_of,
};

verus! {

/// Errors that can occur during file fetching
#[derive(Debug)]
pub enum FetchError {
    FileNotFound(std::path::PathBuf),
    CacheDirectoryError(String),
    DownloadError(String),
    IoError(std::io::Error),
    InvalidUrl(String),
}

/// Classification of a path as local or remote
#[derive(Debug, Clone, PartialEq, Eq, Structural)]
pub enum PathType {
    /// Local filesystem path
    Local,
    /// Remote URL (http/https)
    Remote,
    /// Huggingface model reference (hf:// or huggingface://)
    Huggingface,
}

/// The class of a path: by its lower-cased scheme prefix.
pub open spec fn path_type(path: Seq<char>) -> PathType {
    let low = lowercase(path);
    if starts_with(low, "http://"@) || starts_with(low, "https://"@) {
        PathType::Remote
    } else if starts_with(low, "hf://"@) || starts_with(low, "huggingface://"@) {
        PathType::Huggingface
    } else {
        PathType::Local
    }
}

/// Classify whether a path is local or remote
///
/// Returns `PathType::Remote` for http:// and https:// URLs,
/// `PathType::Huggingface` for hf:// and huggingface:// URLs,
/// and `PathType::Local` for everything else.
pub fn classify_path(path: &str) -> (t: PathType)
    ensures
        t == path_type(path@),
{
    let p = chars_of(path);
    let low = lowercase_chars(&p);
    if starts_with_exec(&low, &chars_of("http://")) || starts_with_exec(&low, &chars_of("https://")) {
        PathType::Remote
    } else if starts_with_exec(&low, &chars_of("hf://")) || starts_with_exec(
        &low,
        &chars_of("huggingface://"),
    ) {
        PathType::Huggingface
    } else {
        PathType::Local
    }
}

/// The part of a Huggingface reference after its scheme, if it has one.
pub open spec fn hf_path(r: Seq<char>) -> Option<Seq<char>> {
    if starts_with(r, "hf://"@) {
        Some(r.skip("hf://"@.len() as int))
    } else if starts_with(r, "huggingface://"@) {
        Some(r.skip("huggingface://"@.len() as int))
    } else {
        None
    }
}

/// `path.splitn(3, '/')` when it yields three parts.
pub open spec fn split3(path: Seq<char>) -> Option<(Seq<char>, Seq<char>, Seq<char>)> {
    let e1 = find_char(path, '/');
    if e1 >= path.len() {
        None
    } else {
        let rest = path.skip((e1 + 1) as int);
        let e2 = find_char(rest, '/');
        if e2 >= rest.len() {
            None
        } else {
            Some((path.take(e1 as int), rest.take(e2 as int), rest.skip((e2 + 1) as int)))
        }
    }
}

/// The download URL for `org/repo/file`.
pub open spec fn hf_download_url(org: Seq<char>, repo: Seq<char>, file: Seq<char>) -> Seq<char> {
    "https://huggingface.co/"@ + org + "/"@ + repo + "/resolve/main/"@ + file
}

/// Convert a Huggingface reference to a download URL
///
/// Supports formats:
/// - `hf://org/repo/file.gguf`
/// - `huggingface://org/repo/file.gguf`
pub fn huggingface_to_url(hf_ref: &str) -> (r: Result<String, FetchError>)
    ensures
        match hf_path(hf_ref@) {
            None => r matches Err(FetchError::InvalidUrl(m)) && m@ == hf_ref@,
            Some(p) => match split3(p) {
                None => r matches Err(FetchError::InvalidUrl(m)) && m@
                    == "Huggingface reference must be org/repo/file: "@ + hf_ref@,
                Some((org, repo, file)) => r matches Ok(u) && u@ == hf_download_url(org, repo, file),
            },
        },
{
    let s = chars_of(hf_ref);
    let hf = chars_of("hf://");
    let huggingface = chars_of("huggingface://");
    let path: Vec<char> = if starts_with_exec(&s, &hf) {
        slice_chars(&s, hf.len(), s.len())
    } else if starts_with_exec(&s, &huggingface) {
        slice_chars(&s, huggingface.len(), s.len())
    } else {
        return Err(FetchError::InvalidUrl(string_of(&s)));
    };
    let e1 = find_char_exec(&path, '/');
    if e1 >= path.len() {
        let mut m: Vec<char> = Vec::new();
        push_str(&mut m, "Huggingface reference must be org/repo/file: ");
        push_all(&mut m, &s);
        return Err(FetchError::InvalidUrl(string_of(&m)));
    }
    let rest = slice_chars(&path, e1 + 1, path.len());
    proof {
        assert(rest@ =~= path@.skip(e1 + 1));
    }
    let e2 = find_char_exec(&rest, '/');
    if e2 >= rest.len() {
        let mut m: Vec<char> = Vec::new();
        push_str(&mut m, "Huggingface reference must be org/repo/file: ");
        push_all(&mut m, &s);
        return Err(FetchError::InvalidUrl(string_of(&m)));
    }
    let org = slice_chars(&path, 0, e1);
    let repo = slice_chars(&rest, 0, e2);
    let file = slice_chars(&rest, e2 + 1, rest.len());
    proof {
        assert(org@ =~= path@.take(e1 as int));
        assert(repo@ =~= rest@.take(e2 as int));
        assert(file@ =~= rest@.skip(e2 + 1));
    }
    let mut u: Vec<char> = Vec::new();
    push_str(&mut u, "https://huggingface.co/");
    push_all(&mut u, &org);
    push_str(&mut u, "/");
    push_all(&mut u, &repo);
    push_str(&mut u, "/resolve/main/");
    push_all(&mut u, &file);
    Ok(string_of(&u))
}


/// The SHA-256 digest of `bytes`, printed as `{:x}` prints it.
pub uninterp spec fn sha256_hex(bytes: Seq<u8>) -> Seq<char>;

/// `sha2::Sha256` over `bytes`, finalized and printed with `{:x}`: the 32-byte digest
/// as 64 lower-case hexadecimal digits, two per byte (generic-array's `LowerHex`).
#[verifier::external_body]
fn sha256_hex_of(bytes: &[u8]) -> (h: String)
    ensures
        h@ == sha256_hex(bytes@),
        h@.len() == 64,
        forall|i: int| 0 <= i < 64 ==> ('0' <= #[trigger] h@[i] <= '9' || 'a' <= h@[i] <= 'f'),
{
    let mut hasher = Sha256::new();
    hasher.update(bytes);
    format!("{:x}", hasher.finalize())
}

/// The text after the last `c` in `s`; all of `s` when it has none.
pub open spec fn after_last(s: Seq<char>, c: char) -> Seq<char>
    decreases s.len(),
{
    if s.len() == 0 {
        s
    } else if s.last() == c {
        seq![]
    } else {
        after_last(s.drop_last(), c).push(s.last())
    }
}

/// The extension of a URL's file: the text after the last `.` of its last
/// `/`-separated part; empty when that part has no `.`.
pub open spec fn url_extension(url: Seq<char>) -> Seq<char> {
    let file = after_last(url, '/');
    if has_char(file, '.') {
        after_last(file, '.')
    } else {
        seq![]
    }
}

/// The cache file name for a URL whose digest is `hash`: its first 16 hex digits,
/// then `.` and the URL's extension when it has a non-empty one.
pub open spec fn cache_file_name(hash: Seq<char>, url: Seq<char>) -> Seq<char> {
    let ext = url_extension(url);
    if ext.len() == 0 {
        hash.take(16)
    } else {
        hash.take(16) + "."@ + ext
    }
}

/// `path.join(name)` for a relative `name`: a `/` goes between them unless `dir`
/// is empty or already ends with one.
pub open spec fn join_path(dir: Seq<char>, name: Seq<char>) -> Seq<char> {
    if dir.len() == 0 || dir.last() == '/' {
        dir + name
    } else {
        dir + "/"@ + name
    }
}

pub(crate) fn after_last_exec(s: &Vec<char>, c: char) -> (r: Vec<char>)
    ensures
        r@ == after_last(s@, c),
{
    let mut cur: Vec<char> = Vec::new();
    let n = s.len();
    assert(s@.take(0) =~= Seq::<char>::empty());
    for i in 0..n
        invariant
            n == s@.len(),
            cur@ == after_last(s@.take(i as int), c),
    {
        proof {
            let t = s@.take(i + 1);
            assert(t.drop_last() =~= s@.take(i as int));
            assert(t.last() == s@[i as int]);
        }
        if s[i] == c {
            cur = Vec::new();
        } else {
            cur.push(s[i]);
        }
    }
    assert(s@.take(n as int) =~= s@);
    cur
}

/// Generate a deterministic cache path for a remote URL
///
/// Uses SHA256 hash of the URL to create a unique filename,
/// preserving the original file extension if present.
pub fn cache_path_for_url(url: &str, cache_dir: &str) -> (p: String)
    ensures
        p@ == join_path(cache_dir@, cache_file_name(sha256_hex(url.spec_bytes()), url@)),
{
    let hash = sha256_hex_of(url.as_bytes());
    let u = chars_of(url);
    let file = after_last_exec(&u, '/');
    let ext: Vec<char> = if has_char_exec(&file, '.') {
        after_last_exec(&file, '.')
    } else {
        Vec::new()
    };
    let h = chars_of(hash.as_str());
    let mut name = slice_chars(&h, 0, 16);
    proof {
        reveal_strlit(".");
        reveal_strlit("/");
        assert(ext@ == url_extension(url@));
        assert(name@ =~= hash@.take(16));
    }
    if ext.len() > 0 {
        name.push('.');
        push_all(&mut name, &ext);
    }
    assert(name@ =~= cache_file_name(sha256_hex(url.spec_bytes()), url@));
    let d = chars_of(cache_dir);
    let mut out: Vec<char> = Vec::new();
    push_all(&mut out, &d);
    if d.len() > 0 && d[d.len() - 1] != '/' {
        out.push('/');
    }
    push_all(&mut out, &name);
    assert(out@ =~= join_path(cache_dir@, name@));
    string_of(&out)
}

} // verus!
