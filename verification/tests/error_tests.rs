use hemmer_provider_sdk::codec::from_json_bytes;
use hemmer_provider_sdk::error::{ProviderError, StatusCode};

#[test]
fn test_error_display() {
    let err = ProviderError::NotFound("resource-123".to_string());
    assert_eq!(format!("{}", err.to_string()), "Resource not found: resource-123");

    let err = ProviderError::Validation("invalid input".to_string());
    assert_eq!(format!("{}", err.to_string()), "Validation error: invalid input");

    let err = ProviderError::UnknownResource("custom_resource".to_string());
    assert_eq!(format!("{}", err.to_string()), "Unknown resource type: custom_resource");
}

#[test]
fn test_error_to_status() {
    let err = ProviderError::NotFound("test".to_string());
    let status: tonic::Status = err.into();
    assert_eq!(status.code(), tonic::Code::NotFound);

    let err = ProviderError::Validation("test".to_string());
    let status: tonic::Status = err.into();
    assert_eq!(status.code(), tonic::Code::InvalidArgument);

    let err = ProviderError::Configuration("test".to_string());
    let status: tonic::Status = err.into();
    assert_eq!(status.code(), tonic::Code::FailedPrecondition);

    let err = ProviderError::Sdk("test".to_string());
    let status: tonic::Status = err.into();
    assert_eq!(status.code(), tonic::Code::Internal);
}

#[test]
fn test_new_error_variants_display() {
    let err = ProviderError::AlreadyExists("bucket-123".to_string());
    assert_eq!(format!("{}", err.to_string()), "Resource already exists: bucket-123");

    let err = ProviderError::PermissionDenied("access forbidden".to_string());
    assert_eq!(format!("{}", err.to_string()), "Permission denied: access forbidden");

    let err = ProviderError::ResourceExhausted("quota exceeded".to_string());
    assert_eq!(format!("{}", err.to_string()), "Resource exhausted: quota exceeded");

    let err = ProviderError::Unavailable("service down".to_string());
    assert_eq!(format!("{}", err.to_string()), "Service unavailable: service down");

    let err = ProviderError::DeadlineExceeded("timeout".to_string());
    assert_eq!(format!("{}", err.to_string()), "Deadline exceeded: timeout");

    let err = ProviderError::FailedPrecondition("state mismatch".to_string());
    assert_eq!(format!("{}", err.to_string()), "Failed precondition: state mismatch");

    let err = ProviderError::Unimplemented("feature not available".to_string());
    assert_eq!(format!("{}", err.to_string()), "Unimplemented: feature not available");
}

#[test]
fn test_new_error_variants_to_status() {
    let err = ProviderError::AlreadyExists("test".to_string());
    let status: tonic::Status = err.into();
    assert_eq!(status.code(), tonic::Code::AlreadyExists);

    let err = ProviderError::PermissionDenied("test".to_string());
    let status: tonic::Status = err.into();
    assert_eq!(status.code(), tonic::Code::PermissionDenied);

    let err = ProviderError::ResourceExhausted("test".to_string());
    let status: tonic::Status = err.into();
    assert_eq!(status.code(), tonic::Code::ResourceExhausted);

    let err = ProviderError::Unavailable("test".to_string());
    let status: tonic::Status = err.into();
    assert_eq!(status.code(), tonic::Code::Unavailable);

    let err = ProviderError::DeadlineExceeded("test".to_string());
    let status: tonic::Status = err.into();
    assert_eq!(status.code(), tonic::Code::DeadlineExceeded);

    let err = ProviderError::FailedPrecondition("test".to_string());
    let status: tonic::Status = err.into();
    assert_eq!(status.code(), tonic::Code::FailedPrecondition);

    let err = ProviderError::Unimplemented("test".to_string());
    let status: tonic::Status = err.into();
    assert_eq!(status.code(), tonic::Code::Unimplemented);
}

#[test]
fn remaining_variants_display_and_status() {
    let err = ProviderError::Sdk("broken".to_string());
    assert_eq!(err.to_string(), "SDK error: broken");
    let err = ProviderError::Configuration("no key".to_string());
    assert_eq!(err.to_string(), "Configuration error: no key");
    let err = ProviderError::InvalidRequest("empty".to_string());
    assert_eq!(err.to_string(), "Invalid request: empty");
    assert_eq!(err.status_code(), StatusCode::InvalidArgument);
    assert_eq!(err.into_status().code(), tonic::Code::InvalidArgument);

    let err = ProviderError::UnknownResource("x".to_string());
    assert_eq!(err.status_code(), StatusCode::NotFound);
    let status = err.into_status();
    assert_eq!(status.code(), tonic::Code::NotFound);
    assert_eq!(status.message(), "x");
}

#[test]
fn status_carries_the_message_alone() {
    let status = ProviderError::NotFound("bucket".to_string()).into_status();
    assert_eq!(status.message(), "bucket");
    assert_eq!(status.code(), tonic::Code::NotFound);
}

#[test]
fn serialization_failure_wraps_the_error() {
    let failure = from_json_bytes(b"{\"a\": ").unwrap_err();
    let inner = serde_json::from_slice::<serde_json::Value>(b"{\"a\": ").unwrap_err();
    assert_eq!(failure.to_string(), format!("Serialization error: {}", inner));
    assert_eq!(failure.status_code(), StatusCode::InvalidArgument);
    let status = failure.into_status();
    assert_eq!(status.code(), tonic::Code::InvalidArgument);
    assert_eq!(status.message(), format!("Serialization error: {}", inner));

    let converted: ProviderError = inner.into();
    assert!(matches!(converted, ProviderError::Serialization(_)));
}

#[test]
fn transport_failure_wraps_the_error() {
    let inner = tonic::transport::Endpoint::from_shared("not a uri at all".to_string()).unwrap_err();
    let text = inner.to_string();
    let failure: ProviderError = inner.into();
    assert!(matches!(failure, ProviderError::Transport(_)));
    assert_eq!(failure.to_string(), format!("Transport error: {}", text));
    let status = failure.into_status();
    assert_eq!(status.code(), tonic::Code::Unavailable);
    assert_eq!(status.message(), format!("Transport error: {}", text));
}

#[test]
fn status_code_numbers() {
    assert_eq!(StatusCode::InvalidArgument.number(), 3);
    assert_eq!(StatusCode::DeadlineExceeded.number(), 4);
    assert_eq!(StatusCode::NotFound.number(), 5);
    assert_eq!(StatusCode::AlreadyExists.number(), 6);
    assert_eq!(StatusCode::PermissionDenied.number(), 7);
    assert_eq!(StatusCode::ResourceExhausted.number(), 8);
    assert_eq!(StatusCode::FailedPrecondition.number(), 9);
    assert_eq!(StatusCode::Unimplemented.number(), 12);
    assert_eq!(StatusCode::Internal.number(), 13);
    assert_eq!(StatusCode::Unavailable.number(), 14);
    for code in [
        StatusCode::InvalidArgument,
        StatusCode::DeadlineExceeded,
        StatusCode::NotFound,
        StatusCode::AlreadyExists,
        StatusCode::PermissionDenied,
        StatusCode::ResourceExhausted,
        StatusCode::FailedPrecondition,
        StatusCode::Unimplemented,
        StatusCode::Internal,
        StatusCode::Unavailable,
    ] {
        assert_eq!(i32::from(tonic::Code::from(code.number())), code.number());
    }
}
