use polygon::error::{decimal_string, Error};
use polygon::models::Response;

#[test]
fn decimal_rendering() {
    assert_eq!(decimal_string(0), "0");
    assert_eq!(decimal_string(7), "7");
    assert_eq!(decimal_string(10), "10");
    assert_eq!(decimal_string(250), "250");
    assert_eq!(decimal_string(10501), "10501");
}

#[test]
fn error_messages_render_their_variant() {
    assert_eq!(
        Error::NotInitialized.message(),
        "Not Initialized. Call tauri_wherever::init(app_handle) first when setup a tauri app."
    );
    assert_eq!(
        Error::PolygonNotFound(String::from("zone")).message(),
        "Polygon with id [zone] not found."
    );
    assert_eq!(
        Error::PolygonExists(String::from("zone")).message(),
        "Polygon with id [zone] already exists."
    );
    assert_eq!(
        Error::PointsNotEnough(2).message(),
        "At least 3 points needed but got 2."
    );
    assert_eq!(
        Error::LockError(String::from("poisoned")).message(),
        "Can not read/write cache. poisoned"
    );
    assert_eq!(
        Error::PluginInitializationError(String::from("no hook")).message(),
        "Failed to initialize plugin. no hook"
    );
}

#[test]
fn response_ok_carries_no_error() {
    match Response::ok() {
        Ok(resp) => {
            assert!(resp.ok);
            assert!(resp.error.is_none());
        }
        Err(_) => panic!("Response::ok must answer Ok"),
    }
}

#[test]
fn response_err_carries_the_message() {
    match Response::err(Error::PointsNotEnough(1)) {
        Err(resp) => {
            assert!(!resp.ok);
            assert_eq!(resp.error.as_deref(), Some("At least 3 points needed but got 1."));
        }
        Ok(_) => panic!("Response::err must answer Err"),
    }
}
