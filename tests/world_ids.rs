use termrender::world::World;

#[test]
fn objects_get_increasing_ids_in_insertion_order() {
    let mut w: World<&str> = World::new();
    assert_eq!(w.next_id(), 0);
    w.add_world_object("cube");
    w.add_world_object("point");
    w.add_world_object("square");
    assert_eq!(w.next_id(), 3);
    let ids: Vec<i64> = w.keys().copied().collect();
    assert_eq!(ids, vec![0, 1, 2]);
    let names: Vec<&str> = w.values().copied().collect();
    assert_eq!(names, vec!["cube", "point", "square"]);
}

#[test]
fn objects_can_be_updated_in_place() {
    let mut w: World<i32> = World::new();
    w.add_world_object(1);
    w.add_world_object(2);
    for v in w.values_mut() {
        *v *= 10;
    }
    assert_eq!(w.get(&1), Some(&20));
    assert_eq!(w.len(), 2);
}
