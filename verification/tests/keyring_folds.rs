use linear_cli::keyring_store::{ack_of_delete, key_of_read, KeyringDelete, KeyringRead};

#[test]
fn test_key_of_read_folds() {
    assert_eq!(
        key_of_read(KeyringRead::Found("tok".to_string())),
        Ok(Some("tok".to_string()))
    );
    // Absence, an unreachable store and other failures all read as "no
    // key", so the caller falls back to other configuration.
    assert_eq!(key_of_read(KeyringRead::Missing), Ok(None));
    assert_eq!(key_of_read(KeyringRead::NoStorage), Ok(None));
    assert_eq!(key_of_read(KeyringRead::Failed("broken".to_string())), Ok(None));
}

#[test]
fn test_ack_of_delete_folds() {
    assert_eq!(ack_of_delete(KeyringDelete::Deleted), Ok(()));
    // Deleting an absent credential succeeds.
    assert_eq!(ack_of_delete(KeyringDelete::Missing), Ok(()));
    let err = ack_of_delete(KeyringDelete::Failed("broken".to_string())).unwrap_err();
    assert_eq!(err.code, 1);
    assert_eq!(err.message, "Failed to delete API key from keyring");
}
