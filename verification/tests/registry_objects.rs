//! Tests of the object registry: the factory catalog and the live/dangling
//! manager.

use llm_gateway::registry::{Factory, IObject, Manager};

fn obj(uid: &str) -> IObject {
    IObject { uid: uid.to_string() }
}

#[test]
fn factory_registers_and_creates() {
    let mut f = Factory::new();
    assert!(f.create("widget").is_none());
    f._register("widget", obj("w1"));
    let got = f.create("widget").expect("the key was registered");
    assert_eq!(got.uid, "w1");
    f._register("widget", obj("w2"));
    assert_eq!(f.create("widget").expect("still registered").uid, "w2");
}

#[test]
fn manager_registers_and_retrieves() {
    let mut m = Manager::new();
    assert_eq!(m.live_count(), 0);
    assert!(m.retrieve("a").is_none());
    m.register("a", obj("u1"));
    m.register("b", obj("u2"));
    assert_eq!(m.live_count(), 2);
    assert_eq!(m.retrieve("a").expect("a is live").uid, "u1");
    assert_eq!(m.retrieve("b").expect("b is live").uid, "u2");
    // registering again replaces
    m.register("a", obj("u3"));
    assert_eq!(m.live_count(), 2);
    assert_eq!(m.retrieve("a").expect("a is live").uid, "u3");
}

#[test]
fn manager_moves_objects_between_live_and_dangling() {
    let mut m = Manager::new();
    m.register("a", obj("u1"));
    assert!(m.dangle("missing").is_none());
    assert!(m.dangle("a").is_some());
    assert_eq!(m.live_count(), 0);
    assert_eq!(m.dangling_count(), 1);
    assert!(m.retrieve("a").is_none());
    assert_eq!(m.retrieve_dangling("a").expect("a dangles").uid, "u1");
    assert!(m.restore("a").is_some());
    assert_eq!(m.live_count(), 1);
    assert_eq!(m.dangling_count(), 0);
    assert_eq!(m.retrieve("a").expect("a is live again").uid, "u1");
    assert!(m.restore("a").is_none());
}

#[test]
fn manager_removes_objects() {
    let mut m = Manager::new();
    m.register("a", obj("u1"));
    m.register("b", obj("u2"));
    assert!(m.unregister("missing").is_none());
    assert_eq!(m.unregister("a").expect("a was live").uid, "u1");
    assert_eq!(m.live_count(), 1);
    assert!(m.dangle("b").is_some());
    assert_eq!(m.remove_dangling("b").expect("b dangled").uid, "u2");
    assert_eq!(m.dangling_count(), 0);
    assert!(m.remove_dangling("b").is_none());
}
