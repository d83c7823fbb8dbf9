use url_shortener::configuration::Environment;
use url_shortener::errors::AppError;
use url_shortener::store::decimal_string;

#[test]
fn response_parts_conflict() {
    let (status, message) = AppError::DuplicateSlug.response_parts();
    assert_eq!(status, 409);
    assert_eq!(message, "Slug already exists");
}

#[test]
fn response_parts_not_found() {
    let (status, message) = AppError::NotFound.response_parts();
    assert_eq!(status, 404);
    assert_eq!(message, "Not Found");
}

#[test]
fn response_parts_storage_fault() {
    let (status, message) = AppError::StorageFault("disk on fire".to_string()).response_parts();
    assert_eq!(status, 500);
    assert_eq!(message, "disk on fire");
}

#[test]
fn response_parts_malformed_input() {
    let (status, message) =
        AppError::MalformedInput("relative URL without a base".to_string()).response_parts();
    assert_eq!(status, 400);
    assert_eq!(message, "relative URL without a base");
}

#[test]
fn environment_as_str() {
    assert_eq!(Environment::Local.as_str(), "local");
    assert_eq!(Environment::Production.as_str(), "production");
}

#[test]
fn environment_try_from_is_case_insensitive() {
    assert!(matches!(
        Environment::try_from("LOCAL".to_string()),
        Ok(Environment::Local)
    ));
    assert!(matches!(
        Environment::try_from("Production".to_string()),
        Ok(Environment::Production)
    ));
}

#[test]
fn environment_try_from_rejects_others() {
    let r = Environment::try_from("Dev".to_string());
    match r {
        Err(m) => assert_eq!(
            m,
            "dev is not a supported environment. Use either `local` or `production`."
        ),
        Ok(_) => panic!("an unsupported environment name was accepted"),
    }
}

#[test]
fn decimal_rendering_exact_values() {
    assert_eq!(decimal_string(0), "0");
    assert_eq!(decimal_string(7), "7");
    assert_eq!(decimal_string(10), "10");
    assert_eq!(decimal_string(12345), "12345");
    assert_eq!(decimal_string(u64::MAX), "18446744073709551615");
}
