use toy_core::error::OutgoingError;
use toy_core::mpsc::Outgoing;

#[test]
fn outgoing_new_routes_port_zero() {
    let (tx, _rx) = tokio::sync::mpsc::channel::<u32>(4);
    let o = Outgoing::new(tx);
    assert_eq!(o.len(), 1);
    assert_eq!(o.route(0).unwrap(), 0);
    assert!(matches!(
        o.route(1),
        Err(OutgoingError::NotFoundOutputPort { port: 1 })
    ));
    assert_eq!(o.ports_len(), 1);
}

#[test]
fn outgoing_merge_keeps_routes() {
    let (tx1, _rx1) = tokio::sync::mpsc::channel::<u32>(4);
    let (tx2, _rx2) = tokio::sync::mpsc::channel::<u32>(4);
    let (tx3, _rx3) = tokio::sync::mpsc::channel::<u32>(4);
    let mut a = Outgoing::new(tx1);
    let mut b = Outgoing::new(tx2);
    b.merge_by(3, Outgoing::new(tx3));
    assert_eq!(b.target_input_port(1), 3);
    a.merge(b);
    assert_eq!(a.len(), 3);
    assert_eq!(a.target_input_port(0), 0);
    assert_eq!(a.target_input_port(1), 0);
    assert_eq!(a.target_input_port(2), 3);
    assert_eq!(a.target_input_port(9), 0);
    let mut ports = a.ports();
    assert_eq!(ports.next(), Some(0));
    assert_eq!(ports.next(), Some(1));
    assert_eq!(ports.next(), Some(2));
    assert_eq!(ports.next(), None);
    assert_eq!(a.ports_len(), 3);
}

#[test]
fn outgoing_is_closed() {
    let (tx, rx) = tokio::sync::mpsc::channel::<u32>(4);
    let o = Outgoing::new(tx);
    assert!(!o.is_closed());
    drop(rx);
    assert!(o.is_closed());
    assert_eq!(o.is_closed_at(0), Ok(true));
    assert_eq!(o.is_closed_at(5), Err(()));
    let e: Outgoing<u32> = Outgoing::empty();
    assert_eq!(e.len(), 0);
    assert_eq!(e.ports_len(), 0);
}

#[test]
fn merge_keeps_senders_in_port_order() {
    let (a, _ra) = tokio::sync::mpsc::channel::<u32>(4);
    let (b, _rb) = tokio::sync::mpsc::channel::<u32>(4);
    let (c, _rc) = tokio::sync::mpsc::channel::<u32>(4);
    let mut x = Outgoing::new(a.clone());
    let mut y = Outgoing::new(b.clone());
    y.merge(Outgoing::new(c.clone()));
    let y_copy = y.clone();
    assert!(y_copy.sender(0).same_channel(&b));
    assert!(y_copy.sender(1).same_channel(&c));
    x.merge(y);
    assert_eq!(x.len(), 3);
    assert!(x.sender(0).same_channel(&a));
    assert!(x.sender(1).same_channel(&b));
    assert!(x.sender(2).same_channel(&c));
    let (d, _rd) = tokio::sync::mpsc::channel::<u32>(4);
    x.merge_by(7, Outgoing::new(d.clone()));
    assert!(x.sender(3).same_channel(&d));
    assert_eq!(x.target_input_port(3), 7);
}
