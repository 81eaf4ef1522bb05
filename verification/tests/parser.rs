use apod_wallpaper::parser::{extract_image_url, image_url_from, Capture, ParseError};

#[test]
fn extract_finds_the_source_of_the_image_tag() {
    assert_eq!(
        extract_image_url("<IMG SRC=\"image/2024/foo.jpg\">"),
        Ok("image/2024/foo.jpg".to_string())
    );
}

#[test]
fn extract_without_an_image_tag_is_no_match() {
    assert_eq!(
        extract_image_url("<html><body>no picture today</body></html>"),
        Err(ParseError::NoMatch)
    );
    assert_eq!(extract_image_url(""), Err(ParseError::NoMatch));
}

#[test]
fn extract_is_case_sensitive() {
    assert_eq!(
        extract_image_url("<img src=\"image/2024/foo.jpg\">"),
        Err(ParseError::NoMatch)
    );
    assert_eq!(
        extract_image_url("<Img Src=\"image/2024/foo.jpg\">"),
        Err(ParseError::NoMatch)
    );
}

#[test]
fn extract_takes_the_first_tag() {
    let page = "<p>\n<IMG SRC=\"image/one.jpg\">\n<IMG SRC=\"image/two.jpg\">\n</p>";
    assert_eq!(extract_image_url(page), Ok("image/one.jpg".to_string()));
}

#[test]
fn extract_in_a_page() {
    let page = "<html>\n<a href=\"image/2401/big.jpg\">\n<IMG SRC=\"image/2401/small.jpg\"\nalt=\"a picture\" style=\"max-width:100%\"></a>\n</html>";
    assert_eq!(extract_image_url(page), Ok("image/2401/small.jpg".to_string()));
}

#[test]
fn extract_runs_to_the_last_quote_of_the_line() {
    assert_eq!(
        extract_image_url("<IMG SRC=\"a.jpg\" alt=\"x\">"),
        Ok("a.jpg\" alt=\"x".to_string())
    );
}

#[test]
fn extract_needs_an_address_and_a_closing_quote() {
    assert_eq!(extract_image_url("<IMG SRC=\"\">"), Err(ParseError::NoMatch));
    assert_eq!(extract_image_url("<IMG SRC=\"a.jpg>"), Err(ParseError::NoMatch));
    assert_eq!(
        extract_image_url("<IMG SRC=\"a.jpg\n\">"),
        Err(ParseError::NoMatch)
    );
}

#[test]
fn extract_of_one_tag_without_the_rest_of_the_page() {
    assert_eq!(extract_image_url("<IMG SRC=\"x.png\">"), Ok("x.png".to_string()));
}

#[test]
fn image_url_from_a_text_is_that_text() {
    assert_eq!(
        image_url_from(Capture::Text("image/2024/foo.jpg".to_string())),
        Ok("image/2024/foo.jpg".to_string())
    );
}

#[test]
fn image_url_from_no_match() {
    assert_eq!(image_url_from(Capture::NoMatch), Err(ParseError::NoMatch));
}

#[test]
fn image_url_from_a_missing_group() {
    assert_eq!(image_url_from(Capture::NoGroup), Err(ParseError::NoCaptureGroup));
}

#[test]
fn image_url_from_an_empty_group() {
    assert_eq!(
        image_url_from(Capture::Text(String::new())),
        Err(ParseError::NoCaptureGroup)
    );
}

#[test]
fn image_url_from_a_refused_pattern() {
    assert_eq!(image_url_from(Capture::BadPattern), Err(ParseError::BadPattern));
}
