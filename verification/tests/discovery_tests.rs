use screen_share::discovery::{
    device_argument_or_empty, discovery_begin, discovery_step, find_device_argument,
    listing_command, DiscoveryStatus,
};

#[test]
fn selects_block_with_label_among_two() {
    let listing = b"Cam0:\n\t/dev/video0\n\nVirtualVideoDevice:\n\t/dev/video3\n";
    let arg = find_device_argument(listing).expect("label block must be found");
    assert_eq!(arg, b"--file=/dev/video3".to_vec());
}

#[test]
fn single_attempt_without_label_times_out() {
    let listing = b"Cam0:\n\t/dev/video0\n\nCam1:\n\t/dev/video1\n";
    let mut invocations = 0;
    let mut status = discovery_begin(1);
    while let DiscoveryStatus::Searching { remaining } = status {
        invocations += 1;
        status = discovery_step(remaining, listing);
    }
    assert_eq!(invocations, 1);
    assert!(matches!(status, DiscoveryStatus::TimedOut));
}

#[test]
fn first_matching_block_wins_over_later_one() {
    let listing =
        b"VirtualVideoDevice:\n\t/dev/video5\n\nVirtualVideoDevice:\n\t/dev/video9\n";
    let arg = find_device_argument(listing).expect("label block must be found");
    assert_eq!(arg, b"--file=/dev/video5".to_vec());
}

#[test]
fn no_label_yields_nothing() {
    assert!(find_device_argument(b"Cam0:\n\t/dev/video0\n").is_none());
    assert!(find_device_argument(b"").is_none());
}

#[test]
fn label_in_single_block_listing() {
    let listing = b"VirtualVideoDevice (platform:v4l2loopback-000):\n\t/dev/video2\n";
    let arg = find_device_argument(listing).expect("label block must be found");
    assert_eq!(arg, b"--file=/dev/video2".to_vec());
}

#[test]
fn retry_succeeds_on_later_listing() {
    let empty_listing = b"Cam0:\n\t/dev/video0\n";
    let good_listing = b"Cam0:\n\t/dev/video0\n\nVirtualVideoDevice:\n\t/dev/video4\n";
    let listings: [&[u8]; 3] = [empty_listing, empty_listing, good_listing];
    let mut invocations = 0;
    let mut status = discovery_begin(10);
    while let DiscoveryStatus::Searching { remaining } = status {
        let listing = listings[invocations];
        invocations += 1;
        status = discovery_step(remaining, listing);
    }
    assert_eq!(invocations, 3);
    match status {
        DiscoveryStatus::Found { argument } => {
            assert_eq!(argument, b"--file=/dev/video4".to_vec());
        }
        _ => panic!("expected the third listing to succeed"),
    }
}

#[test]
fn zero_budget_times_out_without_any_listing() {
    assert!(matches!(discovery_begin(0), DiscoveryStatus::TimedOut));
}

#[test]
fn timeout_leaves_device_argument_empty() {
    assert_eq!(device_argument_or_empty(DiscoveryStatus::TimedOut), Vec::<u8>::new());
    let found = DiscoveryStatus::Found { argument: b"--file=/dev/video3".to_vec() };
    assert_eq!(device_argument_or_empty(found), b"--file=/dev/video3".to_vec());
}

#[test]
fn listing_command_shape() {
    let cmd = listing_command();
    assert_eq!(cmd, vec![b"v4l2-ctl".to_vec(), b"--list-devices".to_vec()]);
}
