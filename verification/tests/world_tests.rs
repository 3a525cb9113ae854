use gears::config::Config;
use gears::ecs::components::interactive::ShootingIntent;
use gears::ecs::components::misc::{CameraMarker, Marker, Name, PlayerMarker};
use gears::ecs::components::pathfinding::{GridPos, ObstacleGrid};
use gears::ecs::world::{Entity, World};

#[test]
fn config_builders() {
    let c = Config::default();
    assert_eq!(c.window_title, "Gears App");
    assert!(!c.maximized);
    assert_eq!((c.window_width, c.window_height), (1280, 720));
    assert!(c.debug);
    let c = Config::default()
        .with_window_title("Demo")
        .with_maximized(true)
        .with_window_size(800, 600)
        .with_debug(false);
    assert_eq!(c.window_title, "Demo");
    assert!(c.maximized);
    assert_eq!((c.window_width, c.window_height), (800, 600));
    assert!(!c.debug);
}

#[test]
fn world_entities_are_numbered() {
    let mut world = World::default();
    assert_eq!(world.create_entity(), Entity(0));
    assert_eq!(world.create_entity(), Entity(1));
    assert_eq!(world.create_entity().id(), 2);
    assert_eq!(world.take_query_id(), 0);
    assert_eq!(world.take_query_id(), 1);
}

#[test]
fn shooting_intent_cycle() {
    let mut intent = ShootingIntent::new();
    assert!(!intent.is_shooting());
    intent.trigger();
    assert!(intent.is_shooting());
    intent.reset();
    assert!(!intent.is_shooting());
}

#[test]
fn markers_describe_their_components() {
    assert_eq!(CameraMarker::describe(), "Required components: Pos3, ViewController");
    assert_eq!(
        PlayerMarker::describe(),
        "Required components: Pos3, ModelSource, MovementController, ViewController"
    );
    let name = Name("player");
    assert_eq!(*name, "player");
    assert_eq!(name.as_str(), "player");
}

#[test]
fn grid_neighbors() {
    let p = GridPos::new(1, 2, 3);
    let faces = p.get_face_neighbors();
    assert_eq!(
        faces,
        vec![
            GridPos::new(2, 2, 3),
            GridPos::new(0, 2, 3),
            GridPos::new(1, 3, 3),
            GridPos::new(1, 1, 3),
            GridPos::new(1, 2, 4),
            GridPos::new(1, 2, 2)
        ]
    );
    let all = p.get_neighbors();
    assert_eq!(all.len(), 26);
    assert_eq!(all[0], GridPos::new(0, 1, 2));
    assert_eq!(all[12], GridPos::new(1, 2, 2));
    assert_eq!(all[13], GridPos::new(1, 2, 4));
    assert_eq!(all[25], GridPos::new(2, 3, 4));
    assert!(!all.contains(&p));
}

#[test]
fn obstacle_grid_boxes() {
    let mut grid = ObstacleGrid::new();
    assert!(grid.bounds().is_none());
    grid.add_box(GridPos::new(0, 0, 0), GridPos::new(1, 1, 0));
    assert!(grid.is_obstacle(GridPos::new(1, 1, 0)));
    assert!(grid.is_obstacle(GridPos::new(0, 1, 0)));
    assert!(!grid.is_obstacle(GridPos::new(2, 1, 0)));
    grid.add_box(GridPos::new(-3, 5, 1), GridPos::new(-3, 5, 1));
    assert!(grid.is_obstacle(GridPos::new(-3, 5, 1)));
    assert_eq!(grid.bounds(), Some((GridPos::new(-3, 0, 0), GridPos::new(1, 5, 1))));
    // An empty box marks nothing but still widens the bounds.
    grid.add_box(GridPos::new(9, 9, 9), GridPos::new(8, 9, 9));
    assert!(!grid.is_obstacle(GridPos::new(9, 9, 9)));
    assert_eq!(grid.bounds(), Some((GridPos::new(-3, 0, 0), GridPos::new(8, 9, 9))));
    grid.clear_obstacles();
    assert!(!grid.is_obstacle(GridPos::new(0, 0, 0)));
    assert!(grid.bounds().is_none());
}
