use audio_hub::albums::normalize_album_and_disc;
use audio_hub::discovery::{first_ipv4_addr, property_value, socket_string, AnnouncedAddress};

#[test]
fn property_value_strips_key_prefix() {
    assert_eq!(property_value("id=bridge-1", "id"), "bridge-1".to_string());
    assert_eq!(property_value("bridge-1", "id"), "bridge-1".to_string());
}

#[test]
fn first_ipv4_addr_returns_address() {
    let addrs = vec![AnnouncedAddress::V6, AnnouncedAddress::V4(127, 0, 0, 2)];
    assert_eq!(first_ipv4_addr(&addrs), Some((127, 0, 0, 2)));
    assert_eq!(first_ipv4_addr(&vec![AnnouncedAddress::V6]), None);
}

#[test]
fn socket_string_writes_dotted_address_and_port() {
    assert_eq!(socket_string((192, 168, 1, 20), 5556), "192.168.1.20:5556");
}

#[test]
fn normalize_album_disc_suffix_sets_disc_from_folder_hint() {
    let album = Some("Random Access Memories (1)".to_string());
    let (album, disc, source) = normalize_album_and_disc("/tmp/root/CD1/track.flac", &album, None);
    assert_eq!(album.as_deref(), Some("Random Access Memories"));
    assert_eq!(disc, Some(1));
    assert_eq!(source, Some("folder"));
}

#[test]
fn normalize_album_disc_suffix_skips_when_no_hint_and_no_disc() {
    let album = Some("Random Access Memories (1)".to_string());
    let (album, disc, _source) = normalize_album_and_disc("/tmp/root/track.flac", &album, None);
    assert_eq!(album.as_deref(), Some("Random Access Memories (1)"));
    assert_eq!(disc, None);
}

#[test]
fn normalize_album_disc_suffix_respects_existing_disc_number() {
    let album = Some("Random Access Memories (2)".to_string());
    let (album, disc, source) = normalize_album_and_disc("/tmp/root/track.flac", &album, Some(2));
    assert_eq!(album.as_deref(), Some("Random Access Memories"));
    assert_eq!(disc, Some(2));
    assert_eq!(source, Some("tag"));
}
