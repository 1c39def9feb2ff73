use wynd::types::{BinaryMessageEvent, CloseEvent, TextMessageEvent, WyndError};

#[test]
fn test_wynd_error_new() {
    let error_message = "Something went wrong".to_string();
    let error = WyndError::new(error_message.clone());

    assert_eq!(error.inner, error_message);
    assert_eq!(error.as_str(), "Something went wrong");
}

#[test]
fn test_wynd_error_new_empty() {
    let error = WyndError::new(String::new());

    assert_eq!(error.inner, "");
    assert_eq!(error.as_str(), "");
}

#[test]
fn test_wynd_error_new_special_characters() {
    let error_message = "Error: æ—¥æœ¬èªž with Ã©mojis ðŸš€ and newlines\n\ttabs".to_string();
    let error = WyndError::new(error_message.clone());

    assert_eq!(error.inner, error_message);
    assert_eq!(error.as_str(), "Error: æ—¥æœ¬èªž with Ã©mojis ðŸš€ and newlines\n\ttabs");
}

#[test]
fn test_wynd_error_deref() {
    let error_message = "Connection failed".to_string();
    let error = WyndError::new(error_message);

    let deref_result: &str = error.as_str();
    assert_eq!(deref_result, "Connection failed");

    assert_eq!(error.as_str().len(), 17);
    assert!(error.as_str().contains("failed"));
    assert!(error.as_str().starts_with("Connection"));
    assert!(error.as_str().ends_with("failed"));
}

#[test]
fn test_wynd_error_deref_coercion() {
    let error = WyndError::new("Test error".to_string());

    fn takes_str(s: &str) -> usize {
        s.len()
    }

    assert_eq!(takes_str(error.as_str()), 10);

    let uppercase = error.as_str().to_uppercase();
    assert_eq!(uppercase, "TEST ERROR");

    let lowercase = error.as_str().to_lowercase();
    assert_eq!(lowercase, "test error");
}

#[test]
fn test_wynd_error_clone_and_equality() {
    let error1 = WyndError::new("Same message".to_string());
    let error2 = WyndError::new("Same message".to_string());
    let error3 = WyndError::new("Different message".to_string());

    assert_eq!(error1.as_str(), error2.as_str());
    assert_ne!(error1.as_str(), error3.as_str());

    assert_eq!(format!("{}", error1.as_str()), format!("{}", error2.as_str()));
    assert_ne!(format!("{}", error1.as_str()), format!("{}", error3.as_str()));
}

#[test]
fn test_wynd_error_with_long_message() {
    let long_message = "A".repeat(10000);
    let error = WyndError::new(long_message.clone());

    assert_eq!(error.inner.len(), 10000);
    assert_eq!(error.as_str(), long_message);
    assert_eq!(format!("{}", error.as_str()), long_message);
}

#[test]
fn test_wynd_error_memory_usage() {
    let error = WyndError::new("test".to_string());

    let error_size = std::mem::size_of_val(&error);
    let string_size = std::mem::size_of::<String>();

    assert_eq!(error_size, string_size);
}

#[test]
fn test_wynd_error_pattern_matching() {
    let error = WyndError::new("Pattern test".to_string());

    match error.as_str() {
        "Pattern test" => assert!(true),
        _ => assert!(false, "Pattern matching failed"),
    }

    match error.as_str() {
        s if s.starts_with("Pattern") => assert!(true),
        _ => assert!(false, "Pattern prefix matching failed"),
    }
}

#[test]
fn test_message_event_creation() {
    let text_event = TextMessageEvent::new("Hello".to_string());
    assert_eq!(text_event.data, "Hello");

    let binary_data = vec![1, 2, 3, 4, 5];
    let binary_event = BinaryMessageEvent::new(binary_data.clone());
    assert_eq!(binary_event.data, binary_data);

    let close_event = CloseEvent::new(1000, "Normal closure".to_string());
    assert_eq!(close_event.code, 1000);
    assert_eq!(close_event.reason, "Normal closure");

    let close_event_display = close_event.message();
    assert_eq!(
        close_event_display,
        "CloseEvent { code: 1000, reason: Normal closure }"
    );
}

#[test]
fn test_close_event_message_extremes() {
    let zero = CloseEvent::new(0, String::new());
    assert_eq!(zero.message(), "CloseEvent { code: 0, reason:  }");

    let top = CloseEvent::new(65535, "bye".to_string());
    assert_eq!(top.message(), "CloseEvent { code: 65535, reason: bye }");

    let decimal = wynd::types::u16_to_string(1006);
    assert_eq!(decimal, "1006");
}
