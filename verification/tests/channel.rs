use readiness_bridge::channel::Channel;
use readiness_bridge::pipe::{PipeRead, PipeWrite};

#[test]
fn guest_output_is_visible_on_host_read() {
    let mut channel = Channel::new(64);
    assert_eq!(channel.guest_write(b"from guest"), PipeWrite::Accepted(10));
    assert_eq!(channel.guest_read(64), PipeRead::Suspend);
    assert_eq!(channel.host_read(64), PipeRead::Data(b"from guest".to_vec()));
}

#[test]
fn host_output_is_visible_on_guest_read() {
    let mut channel = Channel::new(64);
    assert_eq!(channel.host_write(b"from host"), PipeWrite::Accepted(9));
    assert_eq!(channel.host_read(64), PipeRead::Suspend);
    assert_eq!(channel.guest_read(64), PipeRead::Data(b"from host".to_vec()));
}

#[test]
fn the_two_pipes_do_not_disturb_each_other() {
    let mut channel = Channel::new(4);
    assert_eq!(channel.guest_write(b"abcdef"), PipeWrite::Accepted(4));
    // The pipe towards the host is full; the one towards the guest is not.
    assert_eq!(channel.guest_write(b"ef"), PipeWrite::Suspend);
    assert_eq!(channel.host_write(b"1234"), PipeWrite::Accepted(4));
    assert_eq!(channel.guest_read(2), PipeRead::Data(b"12".to_vec()));
    assert_eq!(channel.host_read(4), PipeRead::Data(b"abcd".to_vec()));
    assert_eq!(channel.guest_read(2), PipeRead::Data(b"34".to_vec()));
}

#[test]
fn each_side_closes_only_its_own_write_end() {
    let mut channel = Channel::new(8);
    assert_eq!(channel.guest_write(b"last"), PipeWrite::Accepted(4));
    channel.close_guest_write();
    assert_eq!(channel.guest_write(b"more"), PipeWrite::Closed);
    assert_eq!(channel.host_read(8), PipeRead::Data(b"last".to_vec()));
    assert_eq!(channel.host_read(8), PipeRead::EndOfStream);
    // The other direction still works.
    assert_eq!(channel.host_write(b"ok"), PipeWrite::Accepted(2));
    assert_eq!(channel.guest_read(8), PipeRead::Data(b"ok".to_vec()));
    channel.close_host_write();
    assert_eq!(channel.host_write(b"x"), PipeWrite::Closed);
    assert_eq!(channel.guest_read(8), PipeRead::EndOfStream);
}

#[test]
fn channel_comes_apart_with_the_pipe_towards_the_host_first() {
    let mut channel = Channel::new(8);
    assert_eq!(channel.guest_write(b"up"), PipeWrite::Accepted(2));
    assert_eq!(channel.host_write(b"down"), PipeWrite::Accepted(4));
    let (mut to_host, mut to_guest) = channel.into_pipes();
    assert_eq!(to_host.read(8), PipeRead::Data(b"up".to_vec()));
    assert_eq!(to_guest.read(8), PipeRead::Data(b"down".to_vec()));
}

#[test]
fn echoing_guest_returns_what_the_host_sent() {
    let request: Vec<u8> = (0..200u32).map(|i| (i * 7 % 256) as u8).collect();
    let mut channel = Channel::new(64);
    let mut sent = 0;
    let mut held: Vec<u8> = Vec::new();
    let mut echoed: Vec<u8> = Vec::new();
    let mut rounds = 0;
    while echoed.len() < request.len() {
        rounds += 1;
        assert!(rounds < 1000, "the channel made no progress");
        // The host sends what the pipe takes, in chunks of at most 50 bytes.
        let end = request.len().min(sent + 50);
        if let PipeWrite::Accepted(n) = channel.host_write(&request[sent..end]) {
            sent += n;
        }
        // The guest reads up to 9 bytes and hands back what it holds.
        if let PipeRead::Data(data) = channel.guest_read(9) {
            held.extend_from_slice(&data);
        }
        if let PipeWrite::Accepted(n) = channel.guest_write(&held) {
            held.drain(..n);
        }
        // The host reads up to 13 bytes of the echo.
        if let PipeRead::Data(data) = channel.host_read(13) {
            echoed.extend_from_slice(&data);
        }
    }
    assert_eq!(echoed, request);
    assert_eq!(channel.host_read(13), PipeRead::Suspend);
    assert_eq!(channel.guest_read(9), PipeRead::Suspend);
}
