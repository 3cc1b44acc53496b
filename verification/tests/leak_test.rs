//! Many tenant identifiers, each owned.

use nusa::types::TenantId;

#[test]
fn tenant_id_100k_creations_no_leak() {
    let mut ids = vec![];
    for i in 0..100_000 {
        ids.push(TenantId::new(&format!("tenant-{}", i)));
    }
    assert_eq!(ids.len(), 100_000);
}
