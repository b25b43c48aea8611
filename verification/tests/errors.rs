use kyvyrn::error::{decimal_digits, status_message_from, Error, ErrorKind};
use kyvyrn::http::{accept_response, succeeded, user_agent, MAX_REDIRECTS};

#[test]
fn fixed_messages() {
    assert_eq!(Error::AppNotFound.message(), "App not found");
    assert_eq!(Error::NoDataDir.message(), "No data dir");
    assert_eq!(Error::NoBrowser.message(), "No supported Chromium-based browser found");
    assert_eq!(Error::NotBitmap.message(), "Not bitmap");
    assert_eq!(Error::DecodeFailed.message(), "Decode failed");
    assert_eq!(Error::NotHtml.message(), "Not HTML");
    assert_eq!(Error::InvalidHtmlEncoding.message(), "Invalid HTML encoding");
    assert_eq!(Error::InvalidBaseUrl.message(), "Invalid base URL");
    assert_eq!(Error::NoIconLinks.message(), "No icon links found");
    assert_eq!(Error::UndecodableIcon.message(), "Failed to decode icon");
    assert_eq!(Error::InvalidImage.message(), "Invalid image");
}

#[test]
fn carried_messages_are_passed_on() {
    assert_eq!(Error::Io("denied".to_string()).message(), "denied");
    assert_eq!(Error::Json("expected value".to_string()).message(), "expected value");
    assert_eq!(Error::Transport("timed out".to_string()).message(), "timed out");
    assert_eq!(Error::Encode("too large".to_string()).message(), "too large");
    assert_eq!(Error::Render("Invalid SVG".to_string()).message(), "Invalid SVG");
    assert_eq!(Error::Io(String::new()).message(), "");
}

#[test]
fn status_message_names_code_and_reason() {
    assert_eq!(Error::HttpStatus(404).message(), "HTTP 404 Not Found");
    assert_eq!(Error::HttpStatus(500).message(), "HTTP 500 Internal Server Error");
    assert_eq!(Error::HttpStatus(301).message(), "HTTP 301 Moved Permanently");
}

#[test]
fn status_message_of_a_code_without_reason() {
    assert_eq!(Error::HttpStatus(599).message(), "HTTP 599 <unknown status code>");
}

#[test]
fn status_message_of_a_number_that_is_no_status() {
    assert_eq!(Error::HttpStatus(99).message(), "HTTP 99");
    assert_eq!(Error::HttpStatus(0).message(), "HTTP 0");
    assert_eq!(Error::HttpStatus(1000).message(), "HTTP 1000");
    assert_eq!(Error::HttpStatus(65535).message(), "HTTP 65535");
}

#[test]
fn status_message_from_given_text() {
    assert_eq!(status_message_from(404, Some("404 Not Found".to_string())), "HTTP 404 Not Found");
    assert_eq!(status_message_from(7, None), "HTTP 7");
}

#[test]
fn decimal_digits_of_numbers() {
    let text = |n: u16| decimal_digits(n).into_iter().collect::<String>();
    for n in [0u16, 7, 10, 99, 100, 1000, 40404, 65535] {
        assert_eq!(text(n), n.to_string());
    }
}

#[test]
fn kinds_of_errors() {
    assert_eq!(Error::AppNotFound.kind(), ErrorKind::NotFound);
    assert_eq!(Error::NoBrowser.kind(), ErrorKind::NotFound);
    assert_eq!(Error::NoIconLinks.kind(), ErrorKind::NotFound);
    assert_eq!(Error::NoDataDir.kind(), ErrorKind::IoFailure);
    assert_eq!(Error::Io("x".to_string()).kind(), ErrorKind::IoFailure);
    assert_eq!(Error::Json("x".to_string()).kind(), ErrorKind::ParseFailure);
    assert_eq!(Error::InvalidHtmlEncoding.kind(), ErrorKind::ParseFailure);
    assert_eq!(Error::Transport("x".to_string()).kind(), ErrorKind::NetworkFailure);
    assert_eq!(Error::HttpStatus(404).kind(), ErrorKind::NetworkFailure);
    assert_eq!(Error::NotBitmap.kind(), ErrorKind::NetworkFailure);
    assert_eq!(Error::NotHtml.kind(), ErrorKind::NetworkFailure);
    assert_eq!(Error::InvalidBaseUrl.kind(), ErrorKind::InvalidInput);
    assert_eq!(Error::DecodeFailed.kind(), ErrorKind::InvalidInput);
    assert_eq!(Error::UndecodableIcon.kind(), ErrorKind::InvalidInput);
    assert_eq!(Error::InvalidImage.kind(), ErrorKind::InvalidInput);
    assert_eq!(Error::Encode("x".to_string()).kind(), ErrorKind::InvalidInput);
    assert_eq!(Error::Render("x".to_string()).kind(), ErrorKind::InvalidInput);
}

#[test]
fn clone_of_an_error_is_equal() {
    for e in [Error::AppNotFound, Error::HttpStatus(418), Error::Io("x".to_string())] {
        assert_eq!(e.clone(), e);
    }
}

#[test]
fn client_settings() {
    assert_eq!(user_agent(), "Mozilla/5.0 (X11; Linux x86_64)");
    assert_eq!(MAX_REDIRECTS, 5);
}

#[test]
fn success_gives_body_and_content_type() {
    assert_eq!(
        accept_response(200, Some("image/png".to_string()), vec![1, 2]),
        Ok((vec![1, 2], "image/png".to_string()))
    );
    assert_eq!(accept_response(299, Some("x".to_string()), vec![]), Ok((vec![], "x".to_string())));
    assert_eq!(accept_response(204, Some("".to_string()), vec![]), Ok((vec![], String::new())));
}

#[test]
fn missing_content_type_is_the_empty_text() {
    assert_eq!(accept_response(200, None, vec![9]), Ok((vec![9], String::new())));
}

#[test]
fn other_statuses_are_errors_that_hold_the_status() {
    for status in [100u16, 199, 300, 301, 404, 500, 0, 65535] {
        assert_eq!(
            accept_response(status, Some("text/html".to_string()), vec![1]),
            Err(Error::HttpStatus(status))
        );
    }
}

#[test]
fn success_is_a_status_from_200_to_299() {
    for status in [200u16, 204, 250, 299] {
        assert!(succeeded(status));
    }
    for status in [0u16, 100, 199, 300, 404, 500, 65535] {
        assert!(!succeeded(status));
    }
}
