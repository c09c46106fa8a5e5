use ore_hq_server::frames::{encode_assignment, parse_client_frame, ping_payload, ClientMessage};
use ore_hq_server::registry::Registry;

#[test]
fn ping_payload_bytes() {
    assert_eq!(ping_payload(), vec![1u8, 2, 3]);
}

#[test]
fn parse_ready_frame() {
    let msg = parse_client_frame(7, &vec![0u8]);
    assert!(matches!(msg, Some(ClientMessage::Ready(7))));
}

#[test]
fn parse_mining_frame() {
    let msg = parse_client_frame(9, &vec![1u8, 0xff, 0xff]);
    assert!(matches!(msg, Some(ClientMessage::Mining(9))));
}

#[test]
fn parse_solution_frame() {
    let mut data = vec![2u8];
    let digest: Vec<u8> = (1u8..17).collect();
    let nonce: Vec<u8> = (100u8..108).collect();
    data.extend_from_slice(&digest);
    data.extend_from_slice(&nonce);
    match parse_client_frame(3, &data) {
        Some(ClientMessage::BestSolution(3, sol)) => {
            assert_eq!(sol.digest, digest);
            assert_eq!(sol.nonce, nonce);
        }
        _ => panic!("expected a solution event"),
    }
}

#[test]
fn parse_rejects_malformed_frames() {
    assert!(parse_client_frame(1, &vec![]).is_none());
    assert!(parse_client_frame(1, &vec![2u8; 24]).is_none());
    assert!(parse_client_frame(1, &vec![9u8, 0, 0]).is_none());
}

#[test]
fn assignment_frame_layout() {
    let challenge: Vec<u8> = (0u8..32).collect();
    let frame = encode_assignment(&challenge, 42, 6_000_000, 8_000_000);
    assert_eq!(frame.len(), 57);
    assert_eq!(frame[0], 0u8);
    assert_eq!(&frame[1..33], &challenge[..]);
    assert_eq!(&frame[33..41], &42u64.to_le_bytes());
    assert_eq!(&frame[41..49], &6_000_000u64.to_le_bytes());
    assert_eq!(&frame[49..57], &8_000_000u64.to_le_bytes());
}

#[test]
fn attach_rejects_duplicates() {
    let mut reg = Registry::new();
    assert!(reg.attach(5));
    assert!(!reg.attach(5));
    assert_eq!(reg.attached.len(), 1);
}

#[test]
fn mark_ready_requires_attachment() {
    let mut reg = Registry::new();
    assert!(!reg.mark_ready(5));
    assert!(reg.ready.is_empty());
    reg.attach(5);
    assert!(reg.mark_ready(5));
    assert!(!reg.mark_ready(5));
    assert_eq!(reg.ready_snapshot(), vec![5]);
}

#[test]
fn evict_removes_both_memberships() {
    let mut reg = Registry::new();
    reg.attach(1);
    reg.attach(2);
    reg.mark_ready(1);
    reg.mark_ready(2);
    reg.evict(1);
    assert!(!reg.is_attached(1));
    assert!(reg.is_attached(2));
    assert_eq!(reg.ready_snapshot(), vec![2]);
}

#[test]
fn failed_pings_evict_atomically() {
    let mut reg = Registry::new();
    reg.attach(1);
    reg.attach(2);
    reg.attach(3);
    reg.mark_ready(1);
    reg.mark_ready(3);
    reg.evict_failed(&vec![1, 3]);
    assert!(!reg.is_attached(1));
    assert!(reg.is_attached(2));
    assert!(!reg.is_attached(3));
    assert!(reg.ready_snapshot().is_empty());
    // a second sweep with the same outcome changes nothing
    reg.evict_failed(&vec![1, 3]);
    assert!(reg.is_attached(2));
    assert_eq!(reg.attached.len(), 1);
}
