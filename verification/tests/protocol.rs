//! The rules that need no ring: error classification, what a received
//! message must carry, socket paths and numbers as text.

use filedes::platform::Platform;
use filedes::ring::{Error, ProtocolError};
use filedes::text::append_decimal;
use filedes::wire::{collect_descriptors, expect_one_descriptor, Ancillary, PAYLOAD, RIGHTS_SPACE};
use filedes::{make_socket_addr, sockpath, BASE_PATH};
use nix::errno::Errno;
use std::path::Path;

fn linux() -> Platform {
    Platform {
        limits: vec![24, 23, 11],
        send_buffer: 256 * 1024,
    }
}

#[test]
fn limits_are_the_three_codes_of_the_platform() {
    let platform = linux();
    assert_eq!(platform.classify(24), Error::Limit(24));
    assert_eq!(platform.classify(23), Error::Limit(23));
    assert_eq!(platform.classify(11), Error::Limit(11));
}

#[test]
fn every_other_code_is_bad() {
    let platform = linux();
    for errno in [-1, 0, 1, 9, 10, 12, 22, 25, 32, 104, 109, i32::MAX, i32::MIN] {
        assert_eq!(platform.classify(errno), Error::Bad(errno));
    }
}

#[test]
fn limits_follow_the_platform() {
    let other = Platform {
        limits: vec![1024, 1023, 35],
        send_buffer: 4096,
    };
    assert_eq!(other.classify(35), Error::Limit(35));
    assert_eq!(other.classify(1023), Error::Limit(1023));
    assert_eq!(other.classify(1024), Error::Limit(1024));
    assert_eq!(other.classify(11), Error::Bad(11));
    assert_eq!(other.classify(24), Error::Bad(24));
    assert_eq!(linux().classify(35), Error::Bad(35));
}

#[test]
fn classification_agrees_with_the_host_errors() {
    let host = Platform {
        limits: vec![
            Errno::EMFILE as i32,
            Errno::EAGAIN as i32,
            Errno::ENFILE as i32,
        ],
        send_buffer: 256 * 1024,
    };
    assert_eq!(
        host.classify(Errno::EMFILE as i32),
        Error::Limit(Errno::EMFILE as i32)
    );
    assert_eq!(
        host.classify(Errno::EAGAIN as i32),
        Error::Limit(Errno::EAGAIN as i32)
    );
    assert_eq!(
        host.classify(Errno::ENFILE as i32),
        Error::Limit(Errno::ENFILE as i32)
    );
    assert_eq!(
        host.classify(Errno::EBADF as i32),
        Error::Bad(Errno::EBADF as i32)
    );
    assert_eq!(
        host.classify(Errno::EPIPE as i32),
        Error::Bad(Errno::EPIPE as i32)
    );
}

#[test]
fn a_platform_without_limits_has_only_faults() {
    let strict = Platform {
        limits: vec![],
        send_buffer: 0,
    };
    for errno in [0, 11, 23, 24] {
        assert_eq!(strict.classify(errno), Error::Bad(errno));
    }
}

#[test]
fn a_platform_may_name_any_number_of_limits() {
    let wide = Platform {
        limits: vec![11, 23, 24, 109, 11],
        send_buffer: 0,
    };
    for errno in [11, 23, 24, 109] {
        assert_eq!(wide.classify(errno), Error::Limit(errno));
    }
    assert_eq!(wide.classify(105), Error::Bad(105));
}

#[test]
fn a_copied_platform_classifies_alike() {
    let platform = linux();
    let copy = platform.duplicate();
    assert_eq!(copy.limits, platform.limits);
    assert_eq!(copy.send_buffer, platform.send_buffer);
    for errno in [9, 11, 23, 24, 25] {
        assert_eq!(copy.classify(errno), platform.classify(errno));
    }
}

#[test]
fn a_message_without_ancillary_data_has_no_descriptor() {
    assert_eq!(
        expect_one_descriptor(&vec![]),
        Err(ProtocolError::NoFDReceived)
    );
}

#[test]
fn a_message_with_empty_rights_has_no_descriptor() {
    assert_eq!(
        expect_one_descriptor(&vec![Ancillary::Rights(vec![])]),
        Err(ProtocolError::NoFDReceived)
    );
    assert_eq!(
        expect_one_descriptor(&vec![Ancillary::Other]),
        Err(ProtocolError::NoFDReceived)
    );
    assert_eq!(
        expect_one_descriptor(&vec![Ancillary::Other, Ancillary::Rights(vec![])]),
        Err(ProtocolError::NoFDReceived)
    );
}

#[test]
fn a_message_with_one_descriptor_is_well_formed() {
    assert_eq!(
        expect_one_descriptor(&vec![Ancillary::Rights(vec![5])]),
        Ok(5)
    );
    assert_eq!(
        expect_one_descriptor(&vec![Ancillary::Other, Ancillary::Rights(vec![7])]),
        Ok(7)
    );
    assert_eq!(
        expect_one_descriptor(&vec![
            Ancillary::Rights(vec![]),
            Ancillary::Rights(vec![0]),
            Ancillary::Other
        ]),
        Ok(0)
    );
}

#[test]
fn a_message_with_more_descriptors_is_refused() {
    assert_eq!(
        expect_one_descriptor(&vec![Ancillary::Rights(vec![5, 6])]),
        Err(ProtocolError::TooManyFDsReceived)
    );
    assert_eq!(
        expect_one_descriptor(&vec![Ancillary::Rights(vec![5]), Ancillary::Rights(vec![6])]),
        Err(ProtocolError::TooManyFDsReceived)
    );
    let full: Vec<i32> = (0..RIGHTS_SPACE as i32).collect();
    assert_eq!(
        expect_one_descriptor(&vec![Ancillary::Rights(full)]),
        Err(ProtocolError::TooManyFDsReceived)
    );
}

#[test]
fn descriptors_are_collected_in_message_order() {
    assert_eq!(collect_descriptors(&vec![]), Vec::<i32>::new());
    assert_eq!(
        collect_descriptors(&vec![
            Ancillary::Rights(vec![3, 1]),
            Ancillary::Other,
            Ancillary::Rights(vec![]),
            Ancillary::Rights(vec![2]),
        ]),
        vec![3, 1, 2]
    );
}

#[test]
fn the_payload_is_one_exclamation_mark() {
    assert_eq!(PAYLOAD, b'!');
    assert_eq!(RIGHTS_SPACE, 15);
}

#[test]
fn socket_files_live_in_the_base_directory() {
    assert_eq!(BASE_PATH, "/tmp/filedes_fun/");
    assert_eq!(sockpath("mysock"), "/tmp/filedes_fun/mysock");
    assert_eq!(sockpath("a/b"), "/tmp/filedes_fun/a/b");
    assert_eq!(sockpath(""), "/tmp/filedes_fun/");
}

#[test]
fn a_rooted_name_is_its_own_path() {
    assert_eq!(sockpath("/var/run/sock"), "/var/run/sock");
    assert_eq!(sockpath("/"), "/");
}

#[test]
fn socket_paths_are_joined_as_paths_are() {
    for name in ["mysock", "mysock2", "", "/", "/abs/olute", "rel/ative", "é/ü", "..", "./x"] {
        let joined = Path::new(BASE_PATH).join(Path::new(name));
        assert_eq!(Path::new(&sockpath(name)), joined.as_path());
        assert_eq!(sockpath(name), joined.to_str().unwrap());
    }
}

#[test]
fn it_does_very_simple_things() {
    let address = make_socket_addr("mysock").unwrap();
    assert_eq!(
        address.path(),
        Some(Path::new("/tmp/filedes_fun/mysock"))
    );
}

#[test]
fn an_address_holds_the_whole_socket_path() {
    let address = make_socket_addr("/run/other").unwrap();
    assert_eq!(address.path(), Some(Path::new("/run/other")));
    let address = make_socket_addr("mysock3").unwrap();
    assert_eq!(
        address.path(),
        Some(Path::new("/tmp/filedes_fun/mysock3"))
    );
}

#[test]
fn a_name_with_a_nul_is_no_address() {
    assert_eq!(
        make_socket_addr("my\0sock").err(),
        Some(Errno::EINVAL as i32)
    );
    assert_eq!(make_socket_addr("\0").err(), Some(Errno::EINVAL as i32));
}

#[test]
fn a_name_longer_than_an_address_is_refused() {
    let long = "x".repeat(4096);
    assert_eq!(
        make_socket_addr(&long).err(),
        Some(Errno::ENAMETOOLONG as i32)
    );
}

#[test]
fn an_address_is_made_or_refused_as_the_socket_path_is() {
    let long = "x".repeat(200);
    let edge = "y".repeat(90);
    for name in ["mysock", "", "/", "/run/other", "a\0", "\0", &long, &edge, "é/ü"] {
        let direct = nix::sys::socket::UnixAddr::new(sockpath(name).as_str());
        let made = make_socket_addr(name);
        assert_eq!(
            made.as_ref().err().copied(),
            direct.as_ref().err().map(|errno| *errno as i32)
        );
        if let (Ok(made), Ok(direct)) = (made, direct) {
            assert_eq!(made, direct);
        }
        // The same name has the same outcome every time.
        assert_eq!(
            make_socket_addr(name).err(),
            make_socket_addr(name).err()
        );
    }
}

#[test]
fn the_base_directory_counts_towards_the_length_of_an_address() {
    // Alone these names are short enough for an address on any host; behind
    // the base directory the second is not.
    let fits = "s".repeat(60);
    let too_long = "s".repeat(100);
    assert!(nix::sys::socket::UnixAddr::new(fits.as_str()).is_ok());
    assert!(nix::sys::socket::UnixAddr::new(too_long.as_str()).is_ok());
    assert!(make_socket_addr(&fits).is_ok());
    assert_eq!(
        make_socket_addr(&too_long).err(),
        Some(Errno::ENAMETOOLONG as i32)
    );
}

fn decimal(n: u64) -> String {
    let mut text = String::new();
    append_decimal(&mut text, n);
    text
}

#[test]
fn numbers_are_written_in_decimal() {
    assert_eq!(decimal(0), "0");
    assert_eq!(decimal(7), "7");
    assert_eq!(decimal(9), "9");
    assert_eq!(decimal(10), "10");
    assert_eq!(decimal(42), "42");
    assert_eq!(decimal(100), "100");
    assert_eq!(decimal(1234567890), "1234567890");
    assert_eq!(decimal(u64::MAX), "18446744073709551615");
}

#[test]
fn decimal_is_appended_to_what_is_there() {
    let mut text = String::from("count: ");
    append_decimal(&mut text, 305);
    assert_eq!(text, "count: 305");
    for n in [0u64, 1, 19, 99, 101, 9999, 10000, 65535, 4294967296] {
        assert_eq!(decimal(n), n.to_string());
    }
}
