use ves::utils::{serde, welcome};

#[test]
fn test_welcome() {
    assert_eq!(welcome(), "Hello, Ericsson!");
}

#[test]
fn test_serde() {
    let json = serde().unwrap();
    assert_eq!(json["host"], String::from("http://something.com"));
    assert_eq!(json["port"], 8888);
}
