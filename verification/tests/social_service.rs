use lumina_core::social::health::HealthResponse;
use lumina_core::social::telemetry::LogResource;

#[test]
fn log_resource_defaults_to_development() {
    let resource = LogResource::resolve("social-backend", "1.2.3", None, None);
    assert_eq!(resource.service_name, "social-backend");
    assert_eq!(resource.service_version, "1.2.3");
    assert_eq!(resource.deployment_environment, "development");
}

#[test]
fn log_resource_prefers_deployment_environment() {
    let resource = LogResource::resolve(
        "social-backend",
        "1.2.3",
        Some("production".to_string()),
        Some("staging".to_string()),
    );
    assert_eq!(resource.deployment_environment, "production");
}

#[test]
fn log_resource_falls_back_to_environment() {
    let resource = LogResource::resolve("social-backend", "1.2.3", None, Some("staging".to_string()));
    assert_eq!(resource.deployment_environment, "staging");
}

#[test]
fn health_answer_reports_healthy_and_version() {
    let h = HealthResponse::healthy("0.4.1".to_string());
    assert_eq!(h.status, "healthy");
    assert_eq!(h.version, "0.4.1");
}
