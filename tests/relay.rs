use port_proxy::relay::{Action, EndCause, Phase, Relay};

/// Runs `relay` to the end against an in-memory source holding `payload`
/// that hands out at most `max_read` bytes per read, and a destination that
/// takes at most `max_write` bytes per write. Returns what the destination got.
fn relay_through(relay: &mut Relay, payload: &[u8], max_read: usize, max_write: usize) -> Vec<u8> {
    let mut pos = 0;
    let mut out = Vec::new();
    let mut steps = 0;
    loop {
        steps += 1;
        assert!(steps < 1_000_000, "relay does not finish");
        match relay.next_action() {
            Action::Read => {
                let space = relay.read_space();
                let n = max_read.min(space.len()).min(payload.len() - pos);
                space[..n].copy_from_slice(&payload[pos..pos + n]);
                pos += n;
                relay.on_read(Some(n));
            }
            Action::Write => {
                let p = relay.pending();
                let k = max_write.min(p.len());
                out.extend_from_slice(&p[..k]);
                relay.on_write(Some(k));
            }
            Action::ShutDown => relay.on_shut_down(),
            Action::Finish => break,
        }
    }
    out
}

fn read_chunk(relay: &mut Relay, data: &[u8]) {
    assert_eq!(relay.next_action(), Action::Read);
    let space = relay.read_space();
    space[..data.len()].copy_from_slice(data);
    relay.on_read(Some(data.len()));
}

#[test]
fn new_relay_reads_first() {
    let r = Relay::new(16, 4);
    assert_eq!(r.next_action(), Action::Read);
    assert_eq!(r.phase(), Phase::Reading);
    assert_eq!(r.id(), 4);
}

#[test]
fn ping_is_echoed_and_end_of_stream_reaches_destination() {
    // Upload: client -> destination.
    let mut up = Relay::new(8, 0);
    read_chunk(&mut up, b"ping");
    assert_eq!(up.next_action(), Action::Write);
    assert_eq!(up.pending(), b"ping");
    up.on_write(Some(4));
    let at_destination = b"ping".to_vec();

    // Download: the destination echoes back what it read.
    let mut down = Relay::new(8, 0);
    read_chunk(&mut down, &at_destination);
    assert_eq!(down.pending(), b"ping");
    down.on_write(Some(4));
    assert_eq!(down.next_action(), Action::Read);

    // The client closes: the destination's write half is shut down.
    up.on_read(Some(0));
    assert_eq!(up.phase(), Phase::ShuttingDown(EndCause::EndOfStream));
    assert_eq!(up.next_action(), Action::ShutDown);
    up.on_shut_down();
    assert_eq!(up.phase(), Phase::Done(EndCause::EndOfStream));
    assert_eq!(up.next_action(), Action::Finish);

    // The other direction is still usable.
    read_chunk(&mut down, b"late");
    assert_eq!(down.pending(), b"late");
}

#[test]
fn empty_payload_delivers_nothing() {
    let mut r = Relay::new(4, 0);
    let out = relay_through(&mut r, b"", 4, 4);
    assert!(out.is_empty());
    assert_eq!(r.phase(), Phase::Done(EndCause::EndOfStream));
}

#[test]
fn payload_larger_than_buffer_arrives_whole() {
    let payload: Vec<u8> = (0..=255u8).cycle().take(1000).collect();
    for buf in [1usize, 2, 3, 7, 64, 999, 1000, 4096] {
        let mut r = Relay::new(buf, 0);
        let out = relay_through(&mut r, &payload, usize::MAX, usize::MAX);
        assert_eq!(out, payload, "buffer {}", buf);
        assert_eq!(r.phase(), Phase::Done(EndCause::EndOfStream));
    }
}

#[test]
fn partial_reads_and_writes_keep_order() {
    let payload: Vec<u8> = (0..500u32).map(|i| (i * 7 % 251) as u8).collect();
    for (buf, max_read, max_write) in [(10, 3, 1), (10, 10, 3), (1, 1, 1), (64, 17, 5), (5, 100, 2)] {
        let mut r = Relay::new(buf, 9);
        let out = relay_through(&mut r, &payload, max_read, max_write);
        assert_eq!(out, payload, "buffer {} read {} write {}", buf, max_read, max_write);
        assert_eq!(r.id(), 9);
    }
}

#[test]
fn partial_write_leaves_rest_pending() {
    let mut r = Relay::new(8, 0);
    read_chunk(&mut r, b"abcdef");
    r.on_write(Some(2));
    assert_eq!(r.next_action(), Action::Write);
    assert_eq!(r.pending(), b"cdef");
    r.on_write(Some(3));
    assert_eq!(r.pending(), b"f");
    r.on_write(Some(1));
    assert_eq!(r.next_action(), Action::Read);
}

#[test]
fn write_taking_nothing_is_issued_again() {
    let mut r = Relay::new(8, 0);
    read_chunk(&mut r, b"xyz");
    r.on_write(Some(0));
    assert_eq!(r.phase(), Phase::Writing);
    assert_eq!(r.pending(), b"xyz");
}

#[test]
fn read_failure_shuts_down() {
    let mut r = Relay::new(8, 0);
    r.on_read(None);
    assert_eq!(r.phase(), Phase::ShuttingDown(EndCause::ReadFault));
    assert_eq!(r.next_action(), Action::ShutDown);
    r.on_shut_down();
    assert_eq!(r.phase(), Phase::Done(EndCause::ReadFault));
}

#[test]
fn read_count_beyond_buffer_is_a_fault() {
    let mut r = Relay::new(8, 0);
    r.on_read(Some(9));
    assert_eq!(r.phase(), Phase::ShuttingDown(EndCause::ReadFault));
}

#[test]
fn write_failure_shuts_down() {
    let mut r = Relay::new(8, 0);
    read_chunk(&mut r, b"abc");
    r.on_write(None);
    assert_eq!(r.phase(), Phase::ShuttingDown(EndCause::WriteFault));
    assert_eq!(r.next_action(), Action::ShutDown);
    r.on_shut_down();
    assert_eq!(r.phase(), Phase::Done(EndCause::WriteFault));
    assert_eq!(r.next_action(), Action::Finish);
}

#[test]
fn write_count_beyond_pending_is_a_fault() {
    let mut r = Relay::new(8, 0);
    read_chunk(&mut r, b"abc");
    r.on_write(Some(4));
    assert_eq!(r.phase(), Phase::ShuttingDown(EndCause::WriteFault));
}

#[test]
fn fifty_connections_keep_their_own_payloads() {
    let payloads: Vec<Vec<u8>> = (0..50u32)
        .map(|c| (0..(100 + c * 13)).map(|i| ((i * 31 + c * 101) % 256) as u8).collect())
        .collect();
    let mut relays: Vec<Relay> = (0..50).map(|c| Relay::new(16 + c, c)).collect();
    let mut pos = vec![0usize; 50];
    let mut outs: Vec<Vec<u8>> = vec![Vec::new(); 50];
    let mut done = 0;
    // Interleave the connections one operation at a time.
    while done < 50 {
        done = 0;
        for c in 0..50 {
            let r = &mut relays[c];
            match r.next_action() {
                Action::Read => {
                    let p = &payloads[c];
                    let space = r.read_space();
                    let n = (c % 7 + 1).min(space.len()).min(p.len() - pos[c]);
                    space[..n].copy_from_slice(&p[pos[c]..pos[c] + n]);
                    pos[c] += n;
                    r.on_read(Some(n));
                }
                Action::Write => {
                    let pend = r.pending();
                    let k = (c % 5 + 1).min(pend.len());
                    outs[c].extend_from_slice(&pend[..k]);
                    r.on_write(Some(k));
                }
                Action::ShutDown => r.on_shut_down(),
                Action::Finish => done += 1,
            }
        }
    }
    for c in 0..50 {
        assert_eq!(outs[c], payloads[c], "connection {}", c);
        assert_eq!(relays[c].id(), c);
    }
}
