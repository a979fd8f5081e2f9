use chwp::wallhaven;

// JSON Response Parsing Tests
#[test]
fn test_parse_valid_wallhaven_response() {
    let json_response = r#"{
        "data": [
            {
                "id": "94x38z",
                "path": "https://w.wallhaven.cc/full/94/wallhaven-94x38z.jpg",
                "resolution": "6742x3534"
            },
            {
                "id": "ze1p56",
                "path": "https://w.wallhaven.cc/full/ze/wallhaven-ze1p56.jpg",
                "resolution": "3779x2480"
            }
        ]
    }"#;

    let result = wallhaven::parse_wallhaven_response(json_response);
    assert!(result.is_ok());

    let images = result.unwrap();
    assert_eq!(images.len(), 2);
    assert_eq!(
        images[0],
        "https://w.wallhaven.cc/full/94/wallhaven-94x38z.jpg"
    );
    assert_eq!(
        images[1],
        "https://w.wallhaven.cc/full/ze/wallhaven-ze1p56.jpg"
    );
}

#[test]
fn test_parse_empty_response() {
    let json_response = r#"{
        "data": []
    }"#;

    let result = wallhaven::parse_wallhaven_response(json_response);
    assert!(result.is_err());
    assert!(result.unwrap_err().contains("No wallpapers found"));
}

#[test]
fn test_parse_invalid_json() {
    let invalid_json = "{ invalid json }";

    let result = wallhaven::parse_wallhaven_response(invalid_json);
    assert!(result.is_err());
    assert!(result.unwrap_err().contains("Failed to parse JSON"));
}

#[test]
fn test_parse_api_error_response() {
    let json_response = r#"{
        "error": "Invalid API key provided"
    }"#;

    let result = wallhaven::parse_wallhaven_response(json_response);
    assert!(result.is_err());
    assert!(result
        .unwrap_err()
        .contains("Wallhaven API error: Invalid API key provided"));
}

#[test]
fn test_parse_response_missing_data_field() {
    let json_response = r#"{
        "meta": {
            "current_page": 1,
            "last_page": 1
        }
    }"#;

    let result = wallhaven::parse_wallhaven_response(json_response);
    assert!(result.is_err());
    assert!(result.unwrap_err().contains("No 'data' field in response"));
}

#[test]
fn test_parse_response_data_not_array() {
    let json_response = r#"{
        "data": "not an array"
    }"#;

    let result = wallhaven::parse_wallhaven_response(json_response);
    assert!(result.is_err());
    assert!(result.unwrap_err().contains("'data' field is not an array"));
}

#[test]
fn test_parse_response_missing_path_fields() {
    let json_response = r#"{
        "data": [
            {
                "id": "94x38z",
                "url": "https://wallhaven.cc/w/94x38z"
            },
            {
                "id": "ze1p56",
                "path": "https://w.wallhaven.cc/full/ze/wallhaven-ze1p56.jpg"
            }
        ]
    }"#;

    let result = wallhaven::parse_wallhaven_response(json_response);
    assert!(result.is_ok());

    let images = result.unwrap();
    // Should only include the one with a valid path field
    assert_eq!(images.len(), 1);
    assert_eq!(
        images[0],
        "https://w.wallhaven.cc/full/ze/wallhaven-ze1p56.jpg"
    );
}

#[test]
fn test_parse_response_all_missing_path_fields() {
    let json_response = r#"{
        "data": [
            {
                "id": "94x38z",
                "url": "https://wallhaven.cc/w/94x38z"
            },
            {
                "id": "ze1p56",
                "url": "https://wallhaven.cc/w/ze1p56"
            }
        ]
    }"#;

    let result = wallhaven::parse_wallhaven_response(json_response);
    assert!(result.is_err());
    assert!(result
        .unwrap_err()
        .contains("No valid wallpaper URLs found"));
}

#[test]
fn test_parse_response_with_meta_data() {
    let json_response = r#"{
        "data": [
            {
                "id": "94x38z",
                "path": "https://w.wallhaven.cc/full/94/wallhaven-94x38z.jpg",
                "views": 100,
                "favorites": 5
            }
        ],
        "meta": {
            "current_page": 1,
            "last_page": 36,
            "per_page": 24,
            "total": 848
        }
    }"#;

    let result = wallhaven::parse_wallhaven_response(json_response);
    assert!(result.is_ok());

    let images = result.unwrap();
    assert_eq!(images.len(), 1);
    assert_eq!(
        images[0],
        "https://w.wallhaven.cc/full/94/wallhaven-94x38z.jpg"
    );
}

#[test]
fn test_parse_large_response() {
    // Create a JSON response with many wallpapers (simulating full 24-item response)
    let mut data_items = Vec::new();
    for i in 1..=24 {
        data_items.push(format!(
            r#"{{"id": "test{:02}", "path": "https://w.wallhaven.cc/full/test/wallhaven-test{:02}.jpg"}}"#,
            i, i
        ));
    }

    let json_response = format!(r#"{{"data": [{}]}}"#, data_items.join(","));

    let result = wallhaven::parse_wallhaven_response(&json_response);
    assert!(result.is_ok());

    let images = result.unwrap();
    assert_eq!(images.len(), 24);
    assert_eq!(
        images[0],
        "https://w.wallhaven.cc/full/test/wallhaven-test01.jpg"
    );
    assert_eq!(
        images[23],
        "https://w.wallhaven.cc/full/test/wallhaven-test24.jpg"
    );
}

#[test]
fn test_rate_limit_error() {
    let json_response = r#"{
        "error": "Too many requests"
    }"#;

    let result = wallhaven::parse_wallhaven_response(json_response);
    assert!(result.is_err());
    assert!(result.unwrap_err().contains("Too many requests"));
}

#[test]
fn test_authentication_error() {
    let json_response = r#"{
        "error": "Unauthorized"
    }"#;

    let result = wallhaven::parse_wallhaven_response(json_response);
    assert!(result.is_err());
    assert!(result.unwrap_err().contains("Unauthorized"));
}

#[test]
fn test_no_results_error_handling() {
    // Test that we get a proper error message when no wallpapers are found
    let json_response = r#"{
        "data": []
    }"#;

    let result = wallhaven::parse_wallhaven_response(json_response);
    assert!(result.is_err());
    let error_msg = result.unwrap_err();
    assert!(error_msg.contains("No wallpapers found"));
}

#[test]
fn test_empty_results_after_filtering() {
    // Test case where API returns data but no valid path fields
    let json_response = r#"{
        "data": [
            {
                "id": "test123",
                "url": "https://wallhaven.cc/w/test123",
                "resolution": "1920x1080"
            },
            {
                "id": "test456",
                "resolution": "2560x1440"
            }
        ]
    }"#;

    let result = wallhaven::parse_wallhaven_response(json_response);
    assert!(result.is_err());
    let error_msg = result.unwrap_err();
    assert!(error_msg.contains("No valid wallpaper URLs found"));
}

#[test]
fn test_parse_non_string_error_value() {
    // An error report that is not a string falls back to the stand-in text.
    let json_response = r#"{ "error": 42 }"#;
    let result = wallhaven::parse_wallhaven_response(json_response);
    assert_eq!(result.unwrap_err(), "Wallhaven API error: Unknown error");
}

#[test]
fn test_parse_top_level_array_has_no_data_field() {
    // A document that is not an object has no fields to look up.
    let json_response = r#"[1, 2, 3]"#;
    let result = wallhaven::parse_wallhaven_response(json_response);
    assert!(result.unwrap_err().contains("No 'data' field in response"));
}
