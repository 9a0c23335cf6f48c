use rust_url_shortener::new_handler::get_url_data_from_post_body;

fn test_get_url_data_case(
    post_body: &str,
    content_type: &str,
    want_url: &str,
    want_cid: &str,
) -> Result<(), String> {
    let (url, cid) =
        match get_url_data_from_post_body(post_body.to_string(), content_type.to_string()) {
            Ok((url, cid)) => (url, cid),
            Err(err) => {
                return Err(err);
            },
        };
    if url != want_url {
        return Err(format!("want url: {}, but got: {}", want_url, url));
    }
    if cid != want_cid {
        return Err(format!("want cid: {}, but got: {}", want_cid, cid));
    }
    Ok(())
}

#[test]
fn test_get_url_data_from_post_body_valid_cases() -> Result<(), String> {
    [
        (
            "url=http://2beens.xyz&cid=some",
            "application/x-www-form-urlencoded",
            "http://2beens.xyz",
            "some",
        ),
        (
            "cid=some&url=http://2beens.xyz",
            "application/x-www-form-urlencoded",
            "http://2beens.xyz",
            "some",
        ),
        (
            "url=http://2beens.xyz",
            "application/x-www-form-urlencoded",
            "http://2beens.xyz",
            "",
        ),
        // json content type
        (
            r#"{"url":"http://2beens.xyz", "cid":"some"}"#,
            "application/json",
            "http://2beens.xyz",
            "some",
        ),
        (
            r#"{"url":"http://2beens.xyz"}"#,
            "application/json",
            "http://2beens.xyz",
            "",
        ),
    ]
        .iter()
        .try_for_each(|(pb, ct, url, cid)| test_get_url_data_case(*pb, *ct, *url, *cid))?;

    Ok(())
}

#[test]
fn test_get_url_data_from_post_body_invalid_cases() -> Result<(), String> {
    [
        "",
        "blabla",
        "url=&cid=some",
        "cid=&url=some",
        "url==",
        "url==",
        "cid=id1",
    ]
        .iter()
        .try_for_each(
            |pb|
                {
                    let (url, cid) = match get_url_data_from_post_body(
                        (*pb).to_string(),
                        "application/x-www-form-urlencoded".to_string(),
                    ) {
                        Ok((url, cid)) => (url, cid),
                        Err(_) => return Ok(()),
                    };
                    Err(format!("unexpected url and cid received for [{}]: {}, {}", pb, url, cid))
                },
        )?;

    [
        "",
        "{}",
        "{blabla}",
        r#"{"cid": "some"}"#,
        "url=&cid=some",
        "cid=&url=some",
        "url==",
        "url==",
        "cid=id1",
    ]
        .iter()
        .try_for_each(
            |pb|
                {
                    let (url, cid) = match get_url_data_from_post_body(
                        (*pb).to_string(),
                        "application/json".to_string(),
                    ) {
                        Ok((url, cid)) => (url, cid),
                        Err(_) => return Ok(()),
                    };
                    Err(format!("unexpected url and cid received for [{}]: {}, {}", pb, url, cid))
                },
        )?;

    Ok(())
}

#[test]
fn test_get_url_data_unknown_content_type() {
    assert!(get_url_data_from_post_body("url=http://a.b".to_string(), "text/plain".to_string())
        .is_err());
}
