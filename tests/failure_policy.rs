use storytel::failure::{failure_effect, FailureEffect, FailureKind, FailureStage};

#[test]
fn auth_failure_stops_instance() {
    assert_eq!(failure_effect(FailureKind::Auth, FailureStage::CatalogFetch), FailureEffect::StopInstance);
    assert_eq!(failure_effect(FailureKind::Auth, FailureStage::Item), FailureEffect::StopInstance);
}

#[test]
fn catalog_failure_aborts_pass() {
    assert_eq!(
        failure_effect(FailureKind::RemoteProtocol, FailureStage::CatalogFetch),
        FailureEffect::AbortPass
    );
    assert_eq!(failure_effect(FailureKind::Transfer, FailureStage::CatalogFetch), FailureEffect::AbortPass);
}

#[test]
fn item_failure_skips_item() {
    assert_eq!(failure_effect(FailureKind::RemoteProtocol, FailureStage::Item), FailureEffect::SkipItem);
    assert_eq!(failure_effect(FailureKind::Transfer, FailureStage::Item), FailureEffect::SkipItem);
    assert_eq!(failure_effect(FailureKind::Filesystem, FailureStage::Item), FailureEffect::SkipItem);
}
