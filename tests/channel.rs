use ohmnote::channel::ValueChannel;
use ohmnote::text::format_ohms;

#[test]
fn each_publish_wakes_the_receiver_once() {
    let mut ch = ValueChannel::new();
    let mut rx = ch.receiver();
    assert!(ch.try_changed(&mut rx).is_none());

    let mut draws: Vec<Option<String>> = Vec::new();

    ch.publish(None);
    if let Some(v) = ch.try_changed(&mut rx) {
        draws.push(v.map(|t| t.as_str().to_string()));
    }
    assert!(ch.try_changed(&mut rx).is_none());

    ch.publish(format_ohms(4700));
    if let Some(v) = ch.try_changed(&mut rx) {
        draws.push(v.map(|t| t.as_str().to_string()));
    }
    assert!(ch.try_changed(&mut rx).is_none());

    ch.publish(None);
    if let Some(v) = ch.try_changed(&mut rx) {
        draws.push(v.map(|t| t.as_str().to_string()));
    }
    assert!(ch.try_changed(&mut rx).is_none());

    assert_eq!(draws, vec![None, Some("4.700K".to_string()), None]);
}

#[test]
fn slow_receiver_sees_only_the_latest() {
    let mut ch = ValueChannel::new();
    let mut rx = ch.receiver();
    ch.publish(format_ohms(100));
    ch.publish(format_ohms(4700));
    let v = ch.try_changed(&mut rx).unwrap().unwrap();
    assert_eq!(v.as_str(), "4.700K");
    assert!(ch.try_changed(&mut rx).is_none());
}

#[test]
fn receivers_are_independent() {
    let mut ch = ValueChannel::new();
    let mut a = ch.receiver();
    let mut b = ch.receiver();
    ch.publish(format_ohms(999));
    assert_eq!(ch.try_changed(&mut a).unwrap().unwrap().as_str(), "999");
    assert!(ch.try_changed(&mut a).is_none());
    assert_eq!(ch.try_changed(&mut b).unwrap().unwrap().as_str(), "999");
}
