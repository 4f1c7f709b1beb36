use flate2::read::{DeflateDecoder, GzDecoder};
use rustynet::config::ServerConfig;
use rustynet::handler::middleware::{
    apply, compress_body, store_encoded, CompressionAlgorithm, CompressionError,
};
use rustynet::handler::responses::{
    any_error, forbidden, internal_server_error, not_found, welcome,
};
use rustynet::handler::router::{resolve, route, Route};
use rustynet::handler::static_files::{
    guess_mime, sanitize_path, serve, static_file_path, FileRead,
};
use rustynet::handler::{handle_error, handle_request};
use rustynet::http::request::HttpRequest;
use rustynet::http::response::HttpResponse;
use rustynet::http::status::HttpStatus;
use rustynet::http::HttpMethod;
use std::io::Read;

const NOW: u64 = 1475419451;
const DATE: &str = "Sun, 02 Oct 2016 14:44:11 GMT";

fn config() -> ServerConfig {
    ServerConfig::default()
}

fn get(uri: &str) -> HttpRequest {
    let mut req = HttpRequest::new();
    req.method = HttpMethod::Get;
    req.uri = uri.to_string();
    req.http_version = (1, 1);
    req
}

fn head_lines(extra: &str) -> String {
    format!("Server: rustynet/0.1\r\nDate: {}\r\n{}", DATE, extra)
}

#[test]
fn welcome_page() {
    let res = welcome(&config(), NOW);
    assert_eq!(res.status, HttpStatus::Okay);
    assert_eq!(res.body, b"<h1>Welcome to rustynet/0.1!</h1>");
    assert_eq!(
        res.headers.stringify(),
        head_lines("Content-Length: 33\r\nContent-Type: text/html\r\n")
    );
    let named = ServerConfig { server_name: "caf\u{e9}".to_string(), ..config() };
    let res = welcome(&named, NOW);
    assert_eq!(res.body, "<h1>Welcome to caf\u{e9}!</h1>".as_bytes());
    assert_eq!(res.headers.get("Content-Length").unwrap(), "26");
}

#[test]
fn error_pages() {
    let res = forbidden(&config(), NOW);
    assert_eq!(res.status, HttpStatus::Forbidden);
    assert_eq!(res.body, b"<h1>403 Forbidden</h1>");
    assert_eq!(
        res.headers.stringify(),
        head_lines("Content-Length: 22\r\nContent-Type: text/html\r\n")
    );
    let res = not_found(&config(), NOW);
    assert_eq!(res.status, HttpStatus::NotFound);
    assert_eq!(res.body, b"<h1>404 Not Found</h1>");
    assert_eq!(res.headers.get("Content-Length").unwrap(), "22");
    let res = internal_server_error(&config(), NOW);
    assert_eq!(res.status, HttpStatus::InternalServerError);
    assert_eq!(res.body, b"<h1>500 Internal Server Error</h1>");
    assert_eq!(res.headers.get("Content-Length").unwrap(), "34");
    assert_eq!(res.headers.get("Content-Type").unwrap(), "text/html");
}

#[test]
fn any_error_by_status() {
    let res = any_error(&config(), NOW, HttpStatus::BadRequest);
    assert_eq!(res.status, HttpStatus::NotFound);
    assert_eq!(res.body, b"<h1>404 Not Found</h1>");
    let res = any_error(&config(), NOW, HttpStatus::Forbidden);
    assert_eq!(res.status, HttpStatus::Forbidden);
    let res = any_error(&config(), NOW, HttpStatus::NotFound);
    assert_eq!(res.status, HttpStatus::NotFound);
    let res = any_error(&config(), NOW, HttpStatus::InternalServerError);
    assert_eq!(res.status, HttpStatus::InternalServerError);
    assert_eq!(res.body, b"<h1>500 Internal Server Error</h1>");
    for status in [
        HttpStatus::MethodNotAllowed,
        HttpStatus::LengthRequired,
        HttpStatus::PayloadTooLarge,
        HttpStatus::UriTooLong,
        HttpStatus::HttpVersionNotSupported,
        HttpStatus::Okay,
    ] {
        let res = any_error(&config(), NOW, status);
        assert_eq!(res.status, status);
        assert!(res.body.is_empty());
        assert_eq!(res.headers.stringify(), head_lines(""));
        let res = handle_error(&config(), NOW, status);
        assert_eq!(res.status, status);
        assert!(res.body.is_empty());
    }
    let res = handle_error(&config(), NOW, HttpStatus::BadRequest);
    assert_eq!(res.status, HttpStatus::NotFound);
}

#[test]
fn media_types() {
    assert_eq!(guess_mime("index.htm"), "text/html");
    assert_eq!(guess_mime("./static/index.html"), "text/html");
    assert_eq!(guess_mime("a.css"), "text/css");
    assert_eq!(guess_mime("a.js"), "application/javascript");
    assert_eq!(guess_mime("a.png"), "image/png");
    assert_eq!(guess_mime("a.jpg"), "image/jpeg");
    assert_eq!(guess_mime("a.jpeg"), "image/jpeg");
    assert_eq!(guess_mime("a.gif"), "image/gif");
    assert_eq!(guess_mime("a.svg"), "image/svg+xml");
    assert_eq!(guess_mime("a.json"), "application/json");
    assert_eq!(guess_mime("a.xml"), "application/xml");
    assert_eq!(guess_mime("a.txt"), "text/plain");
    assert_eq!(guess_mime("a.pdf"), "application/pdf");
    assert_eq!(guess_mime("a.tar.gz"), "application/octet-stream");
    assert_eq!(guess_mime("a.b.txt"), "text/plain");
    assert_eq!(guess_mime("a.TXT"), "application/octet-stream");
    assert_eq!(guess_mime("a."), "application/octet-stream");
    assert_eq!(guess_mime(""), "application/octet-stream");
    assert_eq!(guess_mime("./static/file"), "application/octet-stream");
    // Without a dot the whole path counts as the extension.
    assert_eq!(guess_mime("html"), "text/html");
    assert_eq!(guess_mime("x/css"), "application/octet-stream");
    assert_eq!(guess_mime("\u{e9}.png"), "image/png");
}

#[test]
fn static_paths() {
    assert_eq!(sanitize_path("/static/a.txt"), "/static/a.txt");
    assert_eq!(sanitize_path(""), "");
    assert_eq!(static_file_path("/static/a.txt", &config()), "./static/static/a.txt");
    let rooted = ServerConfig { static_files_root: "/srv".to_string(), ..config() };
    assert_eq!(static_file_path("/static/../x", &rooted), "/srv/static/../x");
}

#[test]
fn serving_a_file() {
    let res = serve("/static/a.css", &config(), NOW, FileRead::Content(b"body{}".to_vec()));
    assert_eq!(res.status, HttpStatus::Okay);
    assert_eq!(res.body, b"body{}");
    assert_eq!(
        res.headers.stringify(),
        head_lines("Content-Length: 6\r\nContent-Type: text/css\r\n")
    );
    let res = serve("/static/empty", &config(), NOW, FileRead::Content(Vec::new()));
    assert_eq!(res.status, HttpStatus::Okay);
    assert_eq!(res.headers.get("Content-Length").unwrap(), "0");
    assert_eq!(res.headers.get("Content-Type").unwrap(), "application/octet-stream");
}

#[test]
fn serving_a_file_that_could_not_be_read() {
    let res = serve("/static/a.css", &config(), NOW, FileRead::NotFound);
    assert_eq!(res.status, HttpStatus::NotFound);
    assert_eq!(res.body, b"<h1>404 Not Found</h1>");
    let res = serve("/static/a.css", &config(), NOW, FileRead::PermissionDenied);
    assert_eq!(res.status, HttpStatus::Forbidden);
    assert_eq!(res.body, b"<h1>403 Forbidden</h1>");
    let res = serve("/static/a.css", &config(), NOW, FileRead::OpenFailed);
    assert_eq!(res.status, HttpStatus::InternalServerError);
    assert_eq!(res.body, b"<h1>500 Internal Server Error</h1>");
    let res = serve("/static/a.css", &config(), NOW, FileRead::ReadFailed);
    assert_eq!(res.status, HttpStatus::InternalServerError);
    assert!(res.body.is_empty());
    assert_eq!(res.headers.stringify(), head_lines(""));
}

#[test]
fn routes() {
    assert_eq!(resolve(&get("/")), Route::Welcome);
    assert_eq!(resolve(&get("/static/a")), Route::StaticFile);
    assert_eq!(resolve(&get("/static/")), Route::StaticFile);
    assert_eq!(resolve(&get("/static")), Route::NotFound);
    assert_eq!(resolve(&get("/Static/a")), Route::NotFound);
    assert_eq!(resolve(&get("")), Route::NotFound);
    assert_eq!(resolve(&get("//")), Route::NotFound);
    assert_eq!(resolve(&get("/index.html")), Route::NotFound);
    for method in [
        HttpMethod::Head,
        HttpMethod::Post,
        HttpMethod::Put,
        HttpMethod::Delete,
        HttpMethod::Connect,
        HttpMethod::Options,
        HttpMethod::Trace,
        HttpMethod::Unknown,
    ] {
        for uri in ["/", "/static/a", "/x"] {
            let mut req = get(uri);
            req.method = method;
            assert_eq!(resolve(&req), Route::MethodNotAllowed);
        }
    }
}

#[test]
fn routing_a_request() {
    let res = route(&get("/"), &config(), NOW, FileRead::NotFound);
    assert_eq!(res.status, HttpStatus::Okay);
    assert_eq!(res.body, b"<h1>Welcome to rustynet/0.1!</h1>");
    let res = route(&get("/"), &config(), NOW, FileRead::Content(b"ignored".to_vec()));
    assert_eq!(res.body, b"<h1>Welcome to rustynet/0.1!</h1>");
    let res = route(&get("/static/a.json"), &config(), NOW, FileRead::Content(b"{}".to_vec()));
    assert_eq!(res.status, HttpStatus::Okay);
    assert_eq!(res.body, b"{}");
    assert_eq!(res.headers.get("Content-Type").unwrap(), "application/json");
    let res = route(&get("/static/a.json"), &config(), NOW, FileRead::PermissionDenied);
    assert_eq!(res.status, HttpStatus::Forbidden);
    let res = route(&get("/nothing"), &config(), NOW, FileRead::Content(b"{}".to_vec()));
    assert_eq!(res.status, HttpStatus::NotFound);
    assert_eq!(res.body, b"<h1>404 Not Found</h1>");
    let mut post = get("/");
    post.method = HttpMethod::Post;
    let res = route(&post, &config(), NOW, FileRead::NotFound);
    assert_eq!(res.status, HttpStatus::MethodNotAllowed);
    assert!(res.body.is_empty());
}

#[test]
fn coding_names() {
    assert_eq!(CompressionAlgorithm::Gzip.as_str(), "gzip");
    assert_eq!(CompressionAlgorithm::Compress.as_str(), "compress");
    assert_eq!(CompressionAlgorithm::Deflate.as_str(), "deflate");
    assert_eq!(CompressionAlgorithm::Br.as_str(), "br");
    assert_eq!(CompressionAlgorithm::Zstd.as_str(), "zstd");
    assert_eq!(CompressionAlgorithm::Dcb.as_str(), "dcb");
    assert_eq!(CompressionAlgorithm::Dcz.as_str(), "dcz");
    assert_eq!(CompressionAlgorithm::Identity.as_str(), "identity");
}

fn sample() -> HttpResponse {
    let mut res = not_found(&config(), NOW);
    res.body = b"aaaaaaaaaaaaaaaaaaaaaaaaaaaaaaaaaaaaaaaaaaaaaaaaaaaaaaaaaaaaaaaaaaaaaaaaaaaaaaaa".to_vec();
    res
}

#[test]
fn gzip_body() {
    let mut res = sample();
    let plain = res.body.clone();
    assert!(compress_body(&mut res, CompressionAlgorithm::Gzip).is_ok());
    assert_ne!(res.body, plain);
    assert_eq!(&res.body[..3], &[0x1f, 0x8b, 8]);
    let mut back = Vec::new();
    GzDecoder::new(&res.body[..]).read_to_end(&mut back).unwrap();
    assert_eq!(back, plain);
    assert_eq!(res.status, HttpStatus::NotFound);
    assert_eq!(
        res.headers.stringify(),
        head_lines(&format!(
            "Content-Length: {}\r\nContent-Type: text/html\r\nContent-Encoding: gzip\r\n",
            res.body.len()
        ))
    );
    let mut again = sample();
    assert!(compress_body(&mut again, CompressionAlgorithm::Gzip).is_ok());
    assert_eq!(again.body, res.body);
}

#[test]
fn deflate_body() {
    let mut res = sample();
    let plain = res.body.clone();
    assert!(compress_body(&mut res, CompressionAlgorithm::Deflate).is_ok());
    assert_ne!(res.body, plain);
    let mut back = Vec::new();
    DeflateDecoder::new(&res.body[..]).read_to_end(&mut back).unwrap();
    assert_eq!(back, plain);
    assert_eq!(res.headers.get("Content-Encoding").unwrap(), "deflate");
    assert_eq!(res.headers.get("Content-Length").unwrap(), &res.body.len().to_string());
    let mut zipped = sample();
    assert!(compress_body(&mut zipped, CompressionAlgorithm::Gzip).is_ok());
    assert_ne!(zipped.body, res.body);
}

#[test]
fn empty_body_is_compressed_too() {
    let mut res = HttpResponse::new(&config(), NOW);
    assert!(compress_body(&mut res, CompressionAlgorithm::Gzip).is_ok());
    assert!(!res.body.is_empty());
    let mut back = Vec::new();
    GzDecoder::new(&res.body[..]).read_to_end(&mut back).unwrap();
    assert!(back.is_empty());
}

#[test]
fn unsupported_codings_are_refused() {
    for algo in [
        CompressionAlgorithm::Compress,
        CompressionAlgorithm::Br,
        CompressionAlgorithm::Zstd,
        CompressionAlgorithm::Dcb,
        CompressionAlgorithm::Dcz,
        CompressionAlgorithm::Identity,
    ] {
        let mut res = sample();
        let before = res.headers.stringify();
        let r = compress_body(&mut res, algo);
        assert!(matches!(r, Err(CompressionError::UnsupportedAlgorithm)));
        assert_eq!(res.body, sample().body);
        assert_eq!(res.headers.stringify(), before);
    }
}

#[test]
fn encoder_outcome_is_stored() {
    let mut res = sample();
    let r = store_encoded(&mut res, CompressionAlgorithm::Deflate, Ok(vec![1, 2, 3]));
    assert!(r.is_ok());
    assert_eq!(res.body, [1, 2, 3]);
    assert_eq!(res.headers.get("Content-Encoding").unwrap(), "deflate");
    assert_eq!(res.headers.get("Content-Length").unwrap(), "3");

    let mut res = sample();
    let before = res.headers.stringify();
    let failure = std::io::Error::new(std::io::ErrorKind::Other, "encoder");
    let r = store_encoded(&mut res, CompressionAlgorithm::Gzip, Err(failure));
    assert!(matches!(r, Err(CompressionError::Io(_))));
    assert_eq!(res.body, sample().body);
    assert_eq!(res.headers.stringify(), before);
}

#[test]
fn compression_needs_accept_encoding() {
    let req = get("/");
    let mut res = sample();
    apply(&req, &mut res);
    assert_eq!(res.body, sample().body);
    assert!(res.headers.get("Content-Encoding").is_none());

    let mut req = get("/");
    req.headers.set_raw("Accept-Encoding", "identity");
    let mut res = sample();
    apply(&req, &mut res);
    assert_eq!(&res.body[..2], &[0x1f, 0x8b]);
    assert_eq!(res.headers.get("Content-Encoding").unwrap(), "gzip");

    let mut req = get("/");
    req.headers.set_raw("accept-encoding", "gzip");
    let mut res = sample();
    apply(&req, &mut res);
    assert_eq!(res.body, sample().body);
}

#[test]
fn handling_a_request() {
    let res = handle_request(&get("/"), &config(), NOW, FileRead::NotFound);
    assert_eq!(res.status, HttpStatus::Okay);
    assert_eq!(res.body, b"<h1>Welcome to rustynet/0.1!</h1>");
    assert_eq!(
        res.build_headers(),
        format!(
            "HTTP/1.1 200 OK\r\nServer: rustynet/0.1\r\nDate: {}\r\nContent-Length: 33\r\nContent-Type: text/html\r\n\r\n",
            DATE
        )
    );

    let mut req = get("/static/big.txt");
    req.headers.set_raw("Accept-Encoding", "gzip");
    let content = vec![b'z'; 1000];
    let res = handle_request(&req, &config(), NOW, FileRead::Content(content.clone()));
    assert_eq!(res.status, HttpStatus::Okay);
    assert_eq!(res.headers.get("Content-Type").unwrap(), "text/plain");
    assert_eq!(res.headers.get("Content-Encoding").unwrap(), "gzip");
    assert_eq!(res.headers.get("Content-Length").unwrap(), &res.body.len().to_string());
    assert!(res.body.len() < 1000);
    let mut back = Vec::new();
    GzDecoder::new(&res.body[..]).read_to_end(&mut back).unwrap();
    assert_eq!(back, content);

    let res = handle_request(&get("/missing"), &config(), NOW, FileRead::NotFound);
    assert_eq!(res.status, HttpStatus::NotFound);
    assert_eq!(res.build_headers(), "HTTP/1.1 404 Not Found\r\n \r\n");
}

#[test]
fn apply_gives_what_compress_body_gives() {
    let mut req = get("/");
    req.headers.set_raw("Accept-Encoding", "br");
    let mut applied = sample();
    apply(&req, &mut applied);
    let mut direct = sample();
    assert!(compress_body(&mut direct, CompressionAlgorithm::Gzip).is_ok());
    assert_eq!(applied.body, direct.body);
    assert_eq!(applied.status, direct.status);
    assert_eq!(applied.headers.stringify(), direct.headers.stringify());
    assert_ne!(applied.body, sample().body);
}
