use hextrap::directory::{Directory, RoomEntry};

fn entry(id: &str, name: &str, vs_bot: bool) -> RoomEntry {
    RoomEntry { room_id: String::from(id), name: String::from(name), vs_bot }
}

#[test]
fn fresh_ids_are_appended_in_order() {
    let mut d = Directory::new();
    assert_eq!(d.len(), 0);
    assert_eq!(d.insert(entry("a", "alpha", false)), 0);
    assert_eq!(d.insert(entry("b", "beta", true)), 1);
    assert_eq!(d.len(), 2);
    assert_eq!(d.get(0).room_id, "a");
    assert_eq!(d.get(1).name, "beta");
    assert!(d.get(1).vs_bot);
}

#[test]
fn find_answers_by_id() {
    let mut d = Directory::new();
    d.insert(entry("a", "alpha", false));
    d.insert(entry("b", "beta", true));
    assert_eq!(d.find(&String::from("a")), Some(0));
    assert_eq!(d.find(&String::from("b")), Some(1));
    assert_eq!(d.find(&String::from("c")), None);
    assert_eq!(d.find(&String::from("")), None);
}

#[test]
fn a_repeated_id_replaces_its_entry() {
    let mut d = Directory::new();
    d.insert(entry("a", "alpha", false));
    d.insert(entry("b", "beta", true));
    let i = d.insert(entry("a", "anew", true));
    assert_eq!(i, 0);
    assert_eq!(d.len(), 2);
    assert_eq!(d.get(0).name, "anew");
    assert!(d.get(0).vs_bot);
    assert_eq!(d.get(1).name, "beta");
}

#[test]
fn listing_lines_carry_the_live_count() {
    let e = entry("a", "alpha", true);
    let info = e.to_room_info(2);
    assert_eq!(info.room_id, "a");
    assert_eq!(info.name, "alpha");
    assert_eq!(info.players, 2);
    assert!(info.vs_bot);
}
