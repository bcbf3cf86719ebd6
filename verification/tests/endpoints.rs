//! URLs, paths, files and texts.

use omp_launchpad::endpoints::{
    api_base_url, bounded_download_url, check_download, diff_download_url, go_without_credentials,
    plan_access, Access,
};
use omp_launchpad::error::{Error, FaultKind, LaunchpadFault};
use omp_launchpad::files::{
    check_file_body, check_file_response, read_url, url_of_plain_file, FileResponse,
};
use omp_launchpad::pages::{fetch_all_entries, fetch_entries, Page};
use omp_launchpad::repository::{
    launchpad_remote, normalise_ref, normalise_repository, repository_url,
};
use omp_launchpad::response::BridgeResponse;
use omp_launchpad::steps::{Action, Place};
use omp_launchpad::target::{ResourceKind, ResourceTarget};
use omp_launchpad::text::{is_whitespace, trim};
use omp_launchpad::web::{encode_path, UrlQuery};
use url::Url;

/// What comes of the answer of the Git host to a request for a file.
fn read_file(
    requested: &str,
    answered: &str,
    status: u16,
    status_text: &str,
    content_type: Option<&str>,
    body: &[u8],
    context: &str,
) -> Result<String, Error> {
    let requested = read_url(requested)?;
    let response = FileResponse {
        url: read_url(answered)?,
        status,
        status_text: status_text.to_owned(),
        content_type: content_type.map(str::to_owned),
    };
    check_file_response(&requested, &response, context)?;
    check_file_body(body.to_vec(), context)
}

#[test]
fn rejects_web_login_responses_without_rejecting_source_text() {
    let cases = [
        (
            "Text/Html; charset=utf-8",
            "<html>Invalid OpenID transaction</html>",
            Some("HTML"),
        ),
        ("text/plain", "Invalid OpenID transaction", Some("OpenID")),
        ("text/plain", "Example: Invalid OpenID transaction", None),
    ];
    for (content_type, body, expected_error) in cases {
        let url = "http://127.0.0.1:4000/repo/plain/README?h=main";
        let result = read_file(
            url,
            url,
            200,
            "200 OK",
            Some(content_type),
            body.as_bytes(),
            "cannot read Launchpad repository file repo:README at branch main",
        );
        if let Some(expected_error) = expected_error {
            let error = result.unwrap_err().message();
            assert!(error.contains("repo:README at branch main"));
            assert!(error.contains(expected_error));
        } else {
            assert_eq!(result.unwrap(), body);
        }
    }
}

#[test]
fn redirected_plain_file_reports_anonymous_access_without_assuming_privacy() {
    let error = read_file(
        "http://127.0.0.1:4000/repo/plain/package.json",
        "http://127.0.0.1:4000/login",
        200,
        "200 OK",
        Some("text/html"),
        b"login",
        "cannot read repo:package.json",
    )
    .unwrap_err()
    .message();
    assert!(error.contains("redirected"));
    assert!(error.contains("anonymous Git HTTP"));
    assert!(!error.contains("private"));
}

#[test]
fn refused_files_say_how_they_were_refused() {
    let url = "https://git.launchpad.net/repo/plain/README";
    let refused = |status: u16, text: &str, body: &[u8]| {
        read_file(url, url, status, text, Some("text/plain"), body, "reading")
            .unwrap_err()
            .message()
    };
    assert_eq!(
        refused(404, "404 Not Found", b""),
        "reading: unexpected Git file response: git.launchpad.net returned HTTP 404 Not Found"
    );
    assert!(refused(403, "403 Forbidden", b"").contains("not Launchpad API login"));
    assert!(refused(200, "200 OK", &[0xff]).contains("file response is not UTF-8 text"));
    let large = vec![b'a'; 2 * 1024 * 1024 + 1];
    assert!(refused(200, "200 OK", &large).contains("larger than 2097152 bytes"));
    let whole = check_file_body(vec![b'a'; 2 * 1024 * 1024], "reading").unwrap();
    assert_eq!(whole.len(), 2 * 1024 * 1024);
}

#[test]
fn git_plain_paths_preserve_repository_names_and_escape_unsafe_bytes() {
    let public = Url::parse(&format!(
        "https://git.launchpad.net/{}/plain/{}",
        encode_path("launchpad-ui"),
        encode_path("package.json")
    ))
    .unwrap();
    assert_eq!(public.path(), "/launchpad-ui/plain/package.json");
    let canonical = Url::parse(&format!(
        "https://git.launchpad.net/{}/plain/src/main.rs",
        encode_path("~owner/my-project/+git/my.repo")
    ))
    .unwrap();
    assert_eq!(
        canonical.path(),
        "/~owner/my-project/+git/my.repo/plain/src/main.rs"
    );
    assert_eq!(encode_path("a b/c?#.txt"), "a%20b/c%3F%23.txt");
}

#[test]
fn plain_file_urls_encode_every_byte_that_is_not_safe() {
    assert_eq!(encode_path("é%"), "%C3%A9%25");
    assert_eq!(
        url_of_plain_file("launchpad-ui", "a b.txt"),
        "https://git.launchpad.net/launchpad-ui/plain/a%20b.txt"
    );
}

#[test]
fn distinguishes_rejected_authentication_from_permission_denial() {
    let rejected = Error::context(
        "cannot inspect merge proposal",
        Error::Launchpad {
            source: LaunchpadFault {
                kind: FaultKind::Api { status: 401 },
                text: "Invalid OAuth token".to_owned(),
            },
        },
    );
    assert_eq!(rejected.code(), Some("not_authenticated"));
    assert!(rejected.bridge_message().contains("HTTP 401"));

    let forbidden = Error::Launchpad {
        source: LaunchpadFault {
            kind: FaultKind::Api { status: 403 },
            text: "Permission denied".to_owned(),
        },
    };
    assert_eq!(forbidden.code(), None);
}

#[test]
fn errors_have_messages() {
    let text = |value: &str| value.to_owned();
    let cases = [
        (
            Error::Command {
                program: text("git"),
                source: text("gone"),
            },
            "cannot run git: gone",
        ),
        (
            Error::CommandFailed {
                program: text("git"),
                reason: text("failed"),
            },
            "cannot complete git: failed",
        ),
        (Error::HomeDirectory, "cannot determine the home directory"),
        (
            Error::HttpStatus {
                url: text("https://x"),
                status: text("404 Not Found"),
            },
            "cannot access https://x: HTTP 404 Not Found",
        ),
        (
            Error::Io {
                path: text("/x"),
                source: text("gone"),
            },
            "cannot read /x: gone",
        ),
        (
            Error::Web {
                url: text("https://x"),
                source: text("gone"),
            },
            "cannot fetch https://x: gone",
        ),
        (
            Error::UrlEncoding {
                reason: text("odd"),
            },
            "cannot decode URL path: odd",
        ),
        (
            Error::context("doing", Error::invalid("wrong")),
            "doing: invalid request: wrong",
        ),
    ];
    for (error, message) in cases {
        assert_eq!(error.message(), message);
        assert_eq!(error.copy().message(), message);
    }
}

#[test]
fn failures_of_the_bridge_carry_their_code() {
    let missing = Error::Launchpad {
        source: LaunchpadFault {
            kind: FaultKind::NotAuthenticated,
            text: "Not authenticated".to_owned(),
        },
    };
    match BridgeResponse::failure_error(&missing) {
        BridgeResponse::Failure { ok, error, code } => {
            assert!(!ok);
            assert_eq!(error, "Launchpad credentials are missing");
            assert_eq!(code.as_deref(), Some("not_authenticated"));
        }
        BridgeResponse::Success { .. } => panic!("a failure is no success"),
    }
}

#[test]
fn access_is_planned_by_need() {
    assert_eq!(plan_access(false, true).ok(), Some(Access::Anonymous));
    assert_eq!(plan_access(false, false).ok(), Some(Access::Credentials));
    assert_eq!(plan_access(true, false).ok(), Some(Access::Credentials));
    assert_eq!(
        plan_access(true, true).err().unwrap().message(),
        "invalid request: authenticated operations are unavailable in anonymous mode"
    );
    let fault = |kind: FaultKind| LaunchpadFault {
        kind,
        text: "fault".to_owned(),
    };
    assert!(go_without_credentials(false, fault(FaultKind::NotAuthenticated)).is_ok());
    assert!(go_without_credentials(true, fault(FaultKind::NotAuthenticated)).is_err());
    assert_eq!(
        go_without_credentials(false, fault(FaultKind::Other))
            .unwrap_err()
            .message(),
        "cannot access Launchpad: fault"
    );
}

#[test]
fn base_urls_follow_the_configuration() {
    assert_eq!(
        api_base_url(None, None, None).unwrap(),
        "https://api.launchpad.net/devel"
    );
    assert_eq!(
        api_base_url(None, Some("staging"), Some("1.0")).unwrap(),
        "https://api.staging.launchpad.net/1.0"
    );
    assert_eq!(
        api_base_url(None, Some("lp.example.org"), None).unwrap(),
        "https://lp.example.org/devel"
    );
    assert_eq!(
        api_base_url(Some("http://localhost/api//"), Some("x"), None).unwrap(),
        "http://localhost/api"
    );
    assert_eq!(
        api_base_url(None, Some("moon"), None).unwrap_err().message(),
        "invalid request: unknown Launchpad instance: moon"
    );
}

#[test]
fn diffs_are_downloaded_from_the_pages_of_the_instance() {
    let base = "https://api.launchpad.net/devel";
    assert_eq!(
        diff_download_url(
            base,
            "https://api.launchpad.net/devel/~o/p/+git/r/+merge/1/+preview-diff/2/diff_text?x=1"
        )
        .unwrap(),
        "https://code.launchpad.net/~o/p/+git/r/+merge/1/+preview-diff/2/+files/preview.diff"
    );
    assert_eq!(
        diff_download_url("http://localhost:4000/devel", "http://localhost:4000/devel/d")
            .unwrap(),
        "http://localhost:4000/devel/d"
    );
    for outside in [
        "https://example.org/devel/d/diff_text",
        "http://api.launchpad.net/devel/d/diff_text",
        "https://api.launchpad.net/development/diff_text",
    ] {
        assert_eq!(
            diff_download_url(base, outside).unwrap_err().message(),
            "invalid request: preview diff text URL is outside the configured Launchpad API"
        );
    }
    assert_eq!(
        diff_download_url(base, "https://api.launchpad.net/devel/d")
            .unwrap_err()
            .message(),
        "invalid request: preview diff text URL has an invalid path"
    );
    assert!(diff_download_url(base, "not a url")
        .unwrap_err()
        .message()
        .starts_with("cannot parse URL not a url: "));
    assert_eq!(
        bounded_download_url(base, "https://u@api.launchpad.net/devel/d/diff_text#f")
            .unwrap()
            .as_deref(),
        Some("https://u@code.launchpad.net/d/+files/preview.diff#f")
    );
    assert!(bounded_download_url(base, "not a url").is_err());
}

#[test]
fn downloads_that_fail_say_their_status() {
    assert!(check_download("https://x", 204, "204 No Content").is_ok());
    for status in [199, 300, 404] {
        assert_eq!(
            check_download("https://x", status, "text").unwrap_err().message(),
            "cannot access https://x: HTTP text"
        );
    }
}

#[test]
fn queries_are_extended() {
    let query = UrlQuery {
        base: "https://api.launchpad.net/devel/project?a=1".to_owned(),
        pairs: vec![("b c".to_owned(), "d&e".to_owned())],
    };
    assert!(query.fits());
    assert_eq!(
        query.address().unwrap(),
        "https://api.launchpad.net/devel/project?a=1&b+c=d%26e"
    );
}

#[test]
fn repositories_are_normalised() {
    for raw in [
        "~owner/project/+git/repo",
        "lp:~owner/project/+git/repo",
        "lp://~owner/project/+git/repo",
        "https://code.launchpad.net/~owner/project/+git/repo",
        "https://git.launchpad.net/~owner/project/+git/repo",
        "git+ssh://user@git.launchpad.net/~owner/project/+git/repo",
        "ssh://git.launchpad.net/~owner/project/+git/repo",
        "git@git.launchpad.net:~owner/project/+git/repo",
        "git.launchpad.net:~owner/project/+git/repo",
    ] {
        let path = normalise_repository(raw).unwrap();
        assert_eq!(path, "~owner/project/+git/repo");
        assert_eq!(normalise_repository(&path).unwrap(), path);
    }
    assert!(launchpad_remote("git@git.launchpad.net:project"));
    assert!(!launchpad_remote("https://github.com/owner/project"));
    assert!(normalise_repository("https://github.com/owner/project").is_err());
    assert!(!launchpad_remote("github.com:owner/project.git"));
    assert_eq!(
        normalise_repository("github.com:owner/project.git").unwrap_err().message(),
        "invalid request: repository URL is not a Launchpad URL"
    );
}

#[test]
fn repository_lookups_encode_the_path() {
    assert_eq!(
        repository_url("https://api.launchpad.net/devel/", "~owner/project/+git/repo").unwrap(),
        "https://api.launchpad.net/devel/+git?ws.op=getByPath&path=%7Eowner%2Fproject%2F%2Bgit%2Frepo"
    );
}

#[test]
fn refs_are_normalised_once() {
    assert_eq!(normalise_ref("feature"), "refs/heads/feature");
    assert_eq!(normalise_ref("refs/heads/feature"), "refs/heads/feature");
    assert_eq!(normalise_ref(&normalise_ref("x")), normalise_ref("x"));
}

#[test]
fn targets_are_decoded() {
    let target = ResourceTarget::parse("lp://%7Eowner/project/%2Bgit/repository/+merge/42").unwrap();
    assert_eq!(
        target.kind,
        ResourceKind::MergeProposal {
            repository: "~owner/project/+git/repository".to_owned(),
            id: 42,
        }
    );
    assert!(ResourceTarget::parse("lp://project%FF")
        .unwrap_err()
        .message()
        .starts_with("cannot decode URL path: "));
}

#[test]
fn blanks_are_those_of_unicode() {
    for code in 0..=0x10FFFF_u32 {
        if let Some(c) = char::from_u32(code) {
            assert_eq!(is_whitespace(c), c.is_whitespace());
        }
    }
    assert_eq!(trim("\u{3000} text\u{a0}\n"), "text");
}

#[test]
fn collections_are_fetched_page_by_page() {
    let next_url = |step: Result<Vec<omp_launchpad::json::Json>, Action>| match step {
        Err(Action::Get {
            place: Place::Url(url),
        }) => url,
        _ => panic!("no page is asked for"),
    };
    let mut pages = Vec::new();
    assert_eq!(next_url(fetch_all_entries("https://x/1", &pages)), "https://x/1");
    pages.push(Page {
        entries: vec![omp_launchpad::json::Json::Null],
        next: Some("https://x/2".to_owned()),
    });
    assert_eq!(next_url(fetch_all_entries("https://x/1", &pages)), "https://x/2");
    assert_eq!(fetch_entries("https://x/1", 1, &pages).ok().unwrap().len(), 1);
    pages.push(Page {
        entries: vec![omp_launchpad::json::Json::Null],
        next: None,
    });
    assert_eq!(fetch_all_entries("https://x/1", &pages).ok().unwrap().len(), 2);
    assert!(fetch_entries("https://x/1", 0, &Vec::new()).ok().unwrap().is_empty());
}

#[test]
fn encoded_paths_are_decoded_again() {
    for path in ["~owner/my-project/+git/my.repo", "a b/c?#.txt", "é%2F/ü", "//", ""] {
        let encoded = encode_path(path);
        let decoded = percent_encoding::percent_decode_str(&encoded).decode_utf8().unwrap();
        assert_eq!(decoded, path);
        assert!(encoded
            .chars()
            .all(|c| c.is_ascii_alphanumeric() || "-._~+/%".contains(c)));
    }
}
