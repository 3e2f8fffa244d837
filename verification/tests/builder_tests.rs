use walcraft::builder::{BuildError, WalBuilder};
use walcraft::{Size, WalConfig, DEFAULT_BUFFER_SIZE};

#[test]
fn builder_it_works() {
    let wal = WalBuilder::new().location("./tmp/dupe").build();
    assert!(wal.is_ok());
}

#[test]
fn build_without_location_fails() {
    let r = WalBuilder::new().build();
    match r {
        Err(e) => {
            assert_eq!(e, BuildError::MissingLocation);
            assert_eq!(e.message(), "Location field is required");
        }
        Ok(_) => panic!("a builder without a location must not build"),
    }
}

#[test]
fn build_maps_every_setting() {
    let config = WalBuilder::new()
        .location("./tmp/cfg")
        .buffer_size(Size::Kb(8))
        .storage_size(Size::Mb(250))
        .enable_fsync()
        .build()
        .unwrap();
    assert_eq!(config.location, "./tmp/cfg".to_string());
    assert_eq!(config.buffer_size, 8 * 1024);
    assert_eq!(config.size, 250 * 1024 * 1024);
    assert!(config.fsync);
}

#[test]
fn build_with_disabled_buffer() {
    let config = WalBuilder::new()
        .location("./tmp/cfg")
        .disable_buffer()
        .build()
        .unwrap();
    assert_eq!(config.buffer_size, 0);
    assert_eq!(config.size, u64::MAX);
    assert!(!config.fsync);
}

#[test]
fn size_to_bytes() {
    assert_eq!(Size::Kb(8).to_bytes(), 8 * 1024);
    assert_eq!(Size::Mb(16).to_bytes(), 16 * 1024 * 1024);
    assert_eq!(Size::Gb(2).to_bytes(), 2 * 1024 * 1024 * 1024);
}

#[test]
fn config_defaults() {
    let config = WalConfig::default();
    assert_eq!(config.location, String::new());
    assert_eq!(config.size, u64::MAX);
    assert_eq!(config.buffer_size, DEFAULT_BUFFER_SIZE);
    assert!(!config.fsync);
}

#[test]
fn config_from_megabytes() {
    let config = WalConfig::with_size_mb("./tmp/mb".to_string(), Some(100));
    assert_eq!(config.size, 100 * 1024 * 1024);
    assert_eq!(config.buffer_size, DEFAULT_BUFFER_SIZE);
    let unbounded = WalConfig::with_size_mb("./tmp/mb".to_string(), None);
    assert_eq!(unbounded.size, u64::MAX);
}
