use toy_core::data::{Frame, Value};
use toy_core::mpsc::OutgoingMessage;

#[test]
fn frame_values_and_signals() {
    let f = Frame::from_value(Value::from(1));
    assert_eq!(f.value(), Some(&Value::from(1)));
    assert!(!f.is_stop());
    let s = Frame::stop();
    assert!(s.is_stop());
    assert!(s.value().is_none());
    assert!(Frame::upstream_finish().is_upstream_finish());
    let mut p = Frame::none();
    p.set_port(3);
    assert_eq!(p.port(), 3);
}
