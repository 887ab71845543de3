use foliage::socket::socket_path;

#[test]
fn socket_of_the_empty_group() {
    // SHA3-256 of the empty string
    assert_eq!(
        socket_path(""),
        "/tmp/a7ffc6f8bf1ed76651c14756a061d662f580ff4de43b49fa82d80a4b80f8434a.sock"
    );
}

#[test]
fn socket_of_a_group() {
    // SHA3-256 of "abc"
    assert_eq!(
        socket_path("abc"),
        "/tmp/3a985da74fe225b2045c172d6bd390bd855f086e3e9d525b46bfe24511431532.sock"
    );
}

#[test]
fn groups_have_their_own_sockets() {
    assert_eq!(socket_path("foo"), socket_path("foo"));
    assert_ne!(socket_path("foo"), socket_path("bar"));
    assert_eq!(socket_path("foo").len(), 5 + 64 + 5);
}
