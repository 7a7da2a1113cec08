use server::error::{Error, ErrorBody};

fn parsed_body(e: Error) -> (u16, Vec<(String, String)>, serde_json::Value) {
    let r = e.into_response();
    let v: serde_json::Value = serde_json::from_str(&r.body).unwrap();
    (r.status, r.headers, v)
}

fn assert_three_fields(v: &serde_json::Value, title: &str, status: u16, message: &str) {
    let obj = v.as_object().unwrap();
    assert_eq!(obj.len(), 3);
    assert_eq!(obj.get("title").unwrap().as_str().unwrap(), title);
    assert_eq!(obj.get("status").unwrap().as_u64().unwrap(), status as u64);
    assert_eq!(obj.get("message").unwrap().as_str().unwrap(), message);
}

#[test]
fn not_found_body() {
    let (status, headers, v) = parsed_body(Error::NotFound);
    assert_eq!(status, 404);
    assert!(headers.is_empty());
    assert_three_fields(&v, "Not Found", 404, "request path not found");
}

#[test]
fn unprocessable_entity_body() {
    let (status, headers, v) = parsed_body(Error::UnprocessableEntity);
    assert_eq!(status, 422);
    assert!(headers.is_empty());
    assert_three_fields(&v, "Unprocessable Entity", 422, "");
}

#[test]
fn bad_request_body() {
    let e = Error::bad_request(vec![(
        "username".to_string(),
        "too short".to_string(),
    )]);
    let (status, headers, v) = parsed_body(e);
    assert_eq!(status, 400);
    assert!(headers.is_empty());
    assert_three_fields(&v, "Bad Request", 400, "error in the request body");
}

#[test]
fn forbidden_body() {
    let (status, headers, v) = parsed_body(Error::Forbidden);
    assert_eq!(status, 403);
    assert!(headers.is_empty());
    assert_three_fields(
        &v,
        "Forbidden",
        403,
        "user may not have access rights to the content",
    );
}

#[test]
fn unauthorized_body_and_header() {
    let (status, headers, v) = parsed_body(Error::Unauthorized);
    assert_eq!(status, 401);
    assert_eq!(
        headers,
        vec![("WWW-Authenticate".to_string(), "Token".to_string())]
    );
    assert_three_fields(&v, "Unauthorized", 401, "authorization required");
}

#[test]
fn database_error_body() {
    let e = Error::Sqlx {
        constraint: None,
        cause: "connection reset".to_string(),
    };
    let (status, headers, v) = parsed_body(e);
    assert_eq!(status, 500);
    assert!(headers.is_empty());
    assert_three_fields(
        &v,
        "Internal Server Error",
        500,
        "an error occurred with the database",
    );
}

#[test]
fn internal_error_body() {
    let e = Error::Anyhow {
        cause: "boom".to_string(),
    };
    let (status, headers, v) = parsed_body(e);
    assert_eq!(status, 500);
    assert!(headers.is_empty());
    assert_three_fields(
        &v,
        "Internal Server Error",
        500,
        "an internal server error has occurred",
    );
}

#[test]
fn only_unauthorized_sets_www_authenticate() {
    let variants = vec![
        Error::NotFound,
        Error::UnprocessableEntity,
        Error::bad_request(vec![]),
        Error::Forbidden,
        Error::Sqlx {
            constraint: None,
            cause: String::new(),
        },
        Error::Anyhow {
            cause: String::new(),
        },
    ];
    for e in variants {
        assert!(e.into_response().headers.is_empty());
    }
    assert_eq!(
        Error::Unauthorized.into_response().headers,
        vec![("WWW-Authenticate".to_string(), "Token".to_string())]
    );
}

#[test]
fn cause_is_not_disclosed() {
    let e = Error::Sqlx {
        constraint: Some("user_username_key".to_string()),
        cause: "duplicate key value violates unique constraint".to_string(),
    };
    let r = e.into_response();
    assert!(!r.body.contains("duplicate key"));
    assert!(!r.body.contains("user_username_key"));
}

#[test]
fn rendered_json_is_exact() {
    let b = ErrorBody::from(Error::NotFound);
    assert_eq!(
        b.to_json(),
        "{\"title\":\"Not Found\",\"status\":404,\"message\":\"request path not found\"}"
    );
}

#[test]
fn error_body_fields() {
    let b = ErrorBody::from(Error::Unauthorized);
    assert_eq!(b.title, "Unauthorized");
    assert_eq!(b.status, 401);
    assert_eq!(b.message, "authorization required");
}

#[test]
fn bad_request_folds_repeated_keys() {
    let e = Error::bad_request(vec![
        ("username".to_string(), "too short".to_string()),
        ("username".to_string(), "not alphanumeric".to_string()),
    ]);
    match e {
        Error::BadRequest { errors } => {
            assert_eq!(
                errors,
                vec![(
                    "username".to_string(),
                    vec!["too short".to_string(), "not alphanumeric".to_string()],
                )]
            );
        }
        _ => panic!("expected BadRequest"),
    }
}

#[test]
fn bad_request_keeps_field_order() {
    let e = Error::bad_request(vec![
        ("username".to_string(), "too short".to_string()),
        ("email".to_string(), "not an address".to_string()),
        ("username".to_string(), "not alphanumeric".to_string()),
    ]);
    match e {
        Error::BadRequest { errors } => {
            assert_eq!(
                errors,
                vec![
                    (
                        "username".to_string(),
                        vec!["too short".to_string(), "not alphanumeric".to_string()],
                    ),
                    (
                        "email".to_string(),
                        vec!["not an address".to_string()],
                    ),
                ]
            );
        }
        _ => panic!("expected BadRequest"),
    }
}

#[test]
fn bad_request_of_nothing_is_empty() {
    let e = Error::bad_request(vec![]);
    match e {
        Error::BadRequest { errors } => assert!(errors.is_empty()),
        _ => panic!("expected BadRequest"),
    }
}
