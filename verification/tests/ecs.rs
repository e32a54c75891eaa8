use ft_engine::entity::{Entity, EntitySet};
use ft_engine::query::{Query, QueryMut};
use ft_engine::resource::ResourceStorage;
use ft_engine::storage::{ComponentsStorage, Storage};
use ft_engine::system::{System, SystemMut};
use ft_engine::world::World;

const POSITION: u64 = 1;
const HEALTH: u64 = 2;

#[test]
fn entity_equality_compares_payloads() {
    assert!(Entity::Id(3).same_as(&Entity::Id(3)));
    assert!(!Entity::Id(3).same_as(&Entity::Id(4)));
    assert!(Entity::Custom("a".to_string()).same_as(&Entity::Custom("a".to_string())));
    assert!(!Entity::Custom("a".to_string()).same_as(&Entity::Custom("b".to_string())));
    assert!(!Entity::Camera.same_as(&Entity::Origin));
    assert!(Entity::Camera.same_as(&Entity::Camera.duplicate()));
}

#[test]
fn entity_set_holds_each_once() {
    let mut s = EntitySet::new();
    assert!(s.insert(Entity::Id(1)));
    assert!(s.insert(Entity::Camera));
    assert!(!s.insert(Entity::Id(1)));
    assert_eq!(s.len(), 2);
    assert!(s.contains(&Entity::Camera));
    assert!(!s.contains(&Entity::Origin));
}

#[test]
fn storage_insert_replaces_and_hands_back() {
    let mut s: Storage<i32> = Storage::new();
    assert_eq!(s.insert(Entity::Id(0), 5), None);
    assert_eq!(s.insert(Entity::Id(0), 6), Some(5));
    assert_eq!(s.len(), 1);
    assert_eq!(s.get(&Entity::Id(0)), Some(&6));
    assert_eq!(s.remove(&Entity::Id(0)), Some(6));
    assert_eq!(s.get(&Entity::Id(0)), None);
    assert_eq!(s.remove(&Entity::Id(0)), None);
    assert_eq!(s.len(), 0);
}

#[test]
fn storage_entries_in_insertion_order() {
    let mut s: Storage<&str> = Storage::new();
    s.insert(Entity::Camera, "cam");
    s.insert(Entity::Origin, "origin");
    let (e, v) = s.entry(1);
    assert!(e.same_as(&Entity::Origin));
    assert_eq!(*v, "origin");
    if let Some(v) = s.get_mut(&Entity::Camera) {
        *v = "camera";
    }
    assert_eq!(s.get(&Entity::Camera), Some(&"camera"));
}

#[test]
fn add_then_get_component() {
    let mut cs: ComponentsStorage<i64> = ComponentsStorage::new();
    let e = Entity::Id(7);
    cs.add_component(POSITION, &e, 10);
    cs.add_component(HEALTH, &e, 99);
    cs.add_component(POSITION, &Entity::Camera, 20);
    assert_eq!(cs.get_component(POSITION, &e), Some(&10));
    assert_eq!(cs.get_component(HEALTH, &e), Some(&99));
    assert_eq!(cs.get_component(POSITION, &Entity::Camera), Some(&20));
    assert_eq!(cs.get_component(HEALTH, &Entity::Camera), None);
    assert_eq!(cs.get_component(3, &e), None);
}

#[test]
fn add_component_twice_keeps_second() {
    let mut cs: ComponentsStorage<i64> = ComponentsStorage::new();
    cs.add_component(POSITION, &Entity::Origin, 1);
    cs.add_component(POSITION, &Entity::Origin, 2);
    assert_eq!(cs.get_component(POSITION, &Entity::Origin), Some(&2));
    assert_eq!(cs.get_component_storage(POSITION).map(|s| s.len()), Some(1));
}

#[test]
fn remove_component_hands_back_and_keeps_storage() {
    let mut cs: ComponentsStorage<i64> = ComponentsStorage::new();
    cs.add_component(POSITION, &Entity::Id(1), 4);
    assert_eq!(cs.remove_component(POSITION, &Entity::Id(1)), Some(4));
    assert_eq!(cs.get_component(POSITION, &Entity::Id(1)), None);
    assert_eq!(cs.remove_component(POSITION, &Entity::Id(1)), None);
    assert_eq!(cs.remove_component(HEALTH, &Entity::Id(1)), None);
    assert_eq!(cs.get_component_storage(POSITION).map(|s| s.len()), Some(0));
    assert!(cs.get_component_storage(HEALTH).is_none());
}

#[test]
fn get_component_mut_changes_in_place() {
    let mut cs: ComponentsStorage<i64> = ComponentsStorage::new();
    cs.add_component(HEALTH, &Entity::Camera, 3);
    *cs.get_component_mut(HEALTH, &Entity::Camera).unwrap() += 4;
    assert_eq!(cs.get_component(HEALTH, &Entity::Camera), Some(&7));
    assert!(cs.get_component_mut(HEALTH, &Entity::Origin).is_none());
    if let Some(s) = cs.get_component_storage_mut(HEALTH) {
        s.insert(Entity::Origin, 1);
    }
    assert_eq!(cs.get_component(HEALTH, &Entity::Origin), Some(&1));
}

#[test]
fn first_resource_of_a_kind_stays() {
    let mut rs: ResourceStorage<String> = ResourceStorage::new();
    rs.add(1, "first".to_string());
    rs.add(1, "second".to_string());
    assert_eq!(rs.get(1).map(|s| s.as_str()), Some("first"));
    assert!(rs.get(2).is_none());
    rs.get_mut(1).unwrap().push('!');
    assert_eq!(rs.remove(1), Some("first!".to_string()));
    assert!(rs.get(1).is_none());
    assert_eq!(rs.remove(1), None);
}

#[test]
fn query_fetches_one_kind() {
    let mut cs: ComponentsStorage<i64> = ComponentsStorage::new();
    cs.add_component(POSITION, &Entity::Id(0), 1);
    cs.add_component(POSITION, &Entity::Id(1), 2);
    cs.add_component(HEALTH, &Entity::Id(1), 50);
    let q = Query::new(&cs, POSITION);
    let s = q.fetch();
    let mut sum = 0;
    for i in 0..s.len() {
        sum += *s.entry(i).1;
    }
    assert_eq!(sum, 3);
    {
        let qm = QueryMut::new(&mut cs, HEALTH);
        let s = qm.fetch();
        s.insert(Entity::Id(1), 40);
    }
    assert_eq!(cs.get_component(HEALTH, &Entity::Id(1)), Some(&40));
}

struct CountReader(std::cell::Cell<usize>);
impl System<i64, i64> for CountReader {
    fn run(&self, components: &ComponentsStorage<i64>, _resources: &ResourceStorage<i64>) {
        let n = components.get_component_storage(POSITION).map(|s| s.len()).unwrap_or(0);
        self.0.set(self.0.get() + n);
    }
}

struct AddOne;
impl SystemMut<i64, i64> for AddOne {
    fn run(&mut self, components: &mut ComponentsStorage<i64>, resources: &mut ResourceStorage<i64>) {
        if let Some(v) = components.get_component_mut(POSITION, &Entity::Id(0)) {
            *v += 1;
        }
        resources.add(9, 1);
    }
}

type TestWorld = World<i64, i64, CountReader, AddOne>;

#[test]
fn spawn_numbers_unnamed_entities() {
    let mut w: TestWorld = World::new();
    assert!(w.spawn(None).unwrap().same_as(&Entity::Id(0)));
    assert!(w.spawn(None).unwrap().same_as(&Entity::Id(1)));
    assert!(w.spawn(Some(Entity::Camera)).unwrap().same_as(&Entity::Camera));
    assert!(w.spawn(None).unwrap().same_as(&Entity::Id(2)));
}

#[test]
fn spawn_twice_is_refused() {
    let mut w: TestWorld = World::new();
    assert!(w.spawn(Some(Entity::Custom("player".to_string()))).is_some());
    assert!(w.spawn(Some(Entity::Custom("player".to_string()))).is_none());
    // A named entity that takes the next number makes the unnamed spawn fail,
    // and the number is used up all the same.
    assert!(w.spawn(Some(Entity::Id(0))).is_some());
    assert!(w.spawn(None).is_none());
    assert!(w.spawn(None).unwrap().same_as(&Entity::Id(1)));
}

#[test]
fn run_systems_reads_then_changes() {
    let mut w: TestWorld = World::new();
    let e = w.spawn(None).unwrap();
    w.add_component(POSITION, &e, 10);
    w.add_system(CountReader(std::cell::Cell::new(0)));
    w.add_system_mut(AddOne);
    w.add_system_mut(AddOne);
    w.run_systems();
    assert_eq!(w.get_component(POSITION, &e), Some(&12));
    assert_eq!(w.resources.get(9), Some(&1));
    w.run_systems();
    assert_eq!(w.get_component(POSITION, &e), Some(&14));
    let reader = CountReader(std::cell::Cell::new(0));
    w.run_system(&reader);
    assert_eq!(reader.0.get(), 1);
}

#[test]
fn world_component_helpers() {
    let mut w: TestWorld = World::new();
    let e = w.spawn(Some(Entity::Origin)).unwrap();
    w.add_component(HEALTH, &e, 5);
    *w.get_mut_component(HEALTH, &e).unwrap() -= 2;
    assert_eq!(w.get_component(HEALTH, &e), Some(&3));
    assert_eq!(w.remove_component(HEALTH, &e), Some(3));
    assert_eq!(w.get_component(HEALTH, &e), None);
    assert_eq!(w.components.get_component_storage(HEALTH).map(|s| s.len()), Some(0));
}

#[test]
fn entity_derived_traits_agree() {
    let a = Entity::Custom("x".to_string());
    assert_eq!(a.clone(), a);
    assert_eq!(a == Entity::Custom("x".to_string()), a.same_as(&Entity::Custom("x".to_string())));
    assert_ne!(Entity::Id(1), Entity::Id(2));
}

enum Step {
    Double,
    AddThree,
}

impl SystemMut<i64, i64> for Step {
    fn run(&mut self, components: &mut ComponentsStorage<i64>, _resources: &mut ResourceStorage<i64>) {
        if let Some(v) = components.get_component_mut(POSITION, &Entity::Origin) {
            match self {
                Step::Double => *v *= 2,
                Step::AddThree => *v += 3,
            }
        }
    }
}

#[test]
fn changing_systems_run_in_order() {
    let mut w: World<i64, i64, CountReader, Step> = World::new();
    w.add_component(POSITION, &Entity::Origin, 5);
    w.add_system_mut(Step::Double);
    w.add_system_mut(Step::AddThree);
    w.run_systems();
    assert_eq!(w.get_component(POSITION, &Entity::Origin), Some(&13));
}

struct LoggingReader(usize, std::rc::Rc<std::cell::RefCell<Vec<String>>>);
impl System<i64, i64> for LoggingReader {
    fn run(&self, _components: &ComponentsStorage<i64>, _resources: &ResourceStorage<i64>) {
        self.1.borrow_mut().push(format!("read {}", self.0));
    }
}

struct LoggingChanger(usize, std::rc::Rc<std::cell::RefCell<Vec<String>>>);
impl SystemMut<i64, i64> for LoggingChanger {
    fn run(&mut self, _components: &mut ComponentsStorage<i64>, _resources: &mut ResourceStorage<i64>) {
        self.1.borrow_mut().push(format!("change {}", self.0));
    }
}

#[test]
fn every_system_runs_once_in_the_order_added() {
    let log = std::rc::Rc::new(std::cell::RefCell::new(Vec::new()));
    let mut w: World<i64, i64, LoggingReader, LoggingChanger> = World::new();
    w.add_system_mut(LoggingChanger(0, log.clone()));
    w.add_system(LoggingReader(0, log.clone()));
    w.add_system(LoggingReader(1, log.clone()));
    w.add_system_mut(LoggingChanger(1, log.clone()));
    w.add_system(LoggingReader(2, log.clone()));
    w.run_systems();
    assert_eq!(
        *log.borrow(),
        vec!["read 0", "read 1", "read 2", "change 0", "change 1"]
    );
    w.run_systems();
    assert_eq!(log.borrow().len(), 10);
    assert_eq!(log.borrow()[5], "read 0");
}

#[test]
fn new_world_reads_empty() {
    let w: TestWorld = World::new();
    assert_eq!(w.get_component(POSITION, &Entity::Id(0)), None);
    assert!(w.components().get_component_storage(POSITION).is_none());
    assert!(w.resources().get(9).is_none());
}

#[test]
fn storage_lists_each_holder_once() {
    let mut cs: ComponentsStorage<i64> = ComponentsStorage::new();
    cs.add_component(POSITION, &Entity::Id(0), 1);
    cs.add_component(POSITION, &Entity::Id(1), 2);
    cs.add_component(POSITION, &Entity::Id(0), 3);
    cs.add_component(POSITION, &Entity::Camera, 4);
    let s = Query::new(&cs, POSITION).fetch();
    assert_eq!(s.len(), 3);
    let mut seen: Vec<(Entity, i64)> = Vec::new();
    for i in 0..s.len() {
        let (e, v) = s.entry(i);
        assert!(!seen.iter().any(|(x, _)| x == e));
        seen.push((e.clone(), *v));
    }
    assert!(seen.contains(&(Entity::Id(0), 3)));
    assert!(seen.contains(&(Entity::Id(1), 2)));
    assert!(seen.contains(&(Entity::Camera, 4)));
}

#[test]
fn spawns_never_repeat() {
    let mut w: TestWorld = World::new();
    let mut given: Vec<Entity> = Vec::new();
    let asks = vec![None, Some(Entity::Id(1)), None, None, Some(Entity::Origin), Some(Entity::Origin), None];
    for ask in asks {
        if let Some(e) = w.spawn(ask) {
            assert!(!given.contains(&e));
            given.push(e);
        }
    }
    assert_eq!(given, vec![Entity::Id(0), Entity::Id(1), Entity::Id(2), Entity::Origin, Entity::Id(3)]);
}

#[test]
fn keys_held_until_released() {
    let mut input = ft_engine::input::Input::new();
    assert!(!input.held(4));
    input.handle_key_event(4, true);
    input.handle_key_event(7, true);
    assert!(input.held(4));
    assert!(input.held(7));
    input.handle_key_event(7, false);
    assert!(input.held(4));
    assert!(!input.held(7));
    input.handle_key_event(4, true);
    input.handle_key_event(4, false);
    assert!(!input.held(4));
    input.handle_key_event(9, false);
    assert!(!input.held(9));
    input.handle_key_event(5, true);
    let () = input.is_pressed(5);
    assert!(input.held(5));
}

#[test]
fn unnamed_spawns_on_a_new_world_count_from_zero() {
    let mut w: TestWorld = World::new();
    for i in 0..5usize {
        assert!(w.can_spawn_unnamed());
        assert_eq!(w.spawn(None), Some(Entity::Id(i)));
    }
}
