use mmo::gfx::slots::add_light;
use mmo::gfx::slots::remove_light;
use mmo::gfx::slots::Cameras;
use mmo::gfx::slots::LightIndices;
use mmo::gfx::slots::MAX_LIGHTS;

#[test]
fn add_light_appends_where_no_slot_is_empty() {
    let mut lights: Vec<Option<&str>> = Vec::new();
    assert_eq!(add_light("a", &mut lights), 0);
    assert_eq!(add_light("b", &mut lights), 1);
    assert_eq!(lights, vec![Some("a"), Some("b")]);
}

#[test]
fn add_light_takes_the_last_empty_slot() {
    let mut lights = vec![Some("a"), None, Some("c"), None, Some("e")];
    assert_eq!(add_light("x", &mut lights), 3);
    assert_eq!(lights, vec![Some("a"), None, Some("c"), Some("x"), Some("e")]);
    assert_eq!(add_light("y", &mut lights), 1);
    assert_eq!(add_light("z", &mut lights), 5);
    assert_eq!(
        lights,
        vec![Some("a"), Some("y"), Some("c"), Some("x"), Some("e"), Some("z")]
    );
}

#[test]
fn remove_light_empties_the_slot_and_keeps_the_others() {
    let mut lights = vec![Some(10), Some(20), Some(30)];
    assert_eq!(remove_light(&mut lights, 1), 20);
    assert_eq!(lights, vec![Some(10), None, Some(30)]);
    assert_eq!(remove_light(&mut lights, 2), 30);
    assert_eq!(lights, vec![Some(10), None, None]);
    assert_eq!(add_light(40, &mut lights), 2);
}

#[test]
fn light_indices_are_taken_from_the_highest() {
    assert_eq!(MAX_LIGHTS, 8);
    let mut indices = LightIndices::new();
    assert_eq!(indices.take(), Some(7));
    assert_eq!(indices.take(), Some(6));
    indices.give(7);
    assert_eq!(indices.take(), Some(7));
    for expected in (0..6).rev() {
        assert_eq!(indices.take(), Some(expected));
    }
    assert_eq!(indices.take(), None);
    assert_eq!(indices.take(), None);
    indices.give(3);
    assert_eq!(indices.take(), Some(3));
}

#[test]
fn cameras_attach_and_get() {
    let mut cameras: Cameras<String> = Cameras::new();
    assert_eq!(cameras.len(), 0);
    assert_eq!(cameras.active_camera(), None);
    assert_eq!(cameras.attach_camera("main".to_string()), 0);
    assert_eq!(cameras.attach_camera("second".to_string()), 1);
    assert_eq!(cameras.len(), 2);
    assert_eq!(cameras.get_camera(0), Ok(&"main".to_string()));
    assert_eq!(cameras.get_camera(1), Ok(&"second".to_string()));
    assert_eq!(cameras.get_camera(2), Err("Out of range.".to_string()));
}

#[test]
fn cameras_active_camera() {
    let mut cameras: Cameras<u32> = Cameras::new();
    assert_eq!(cameras.get_active_camera(), Err("No currently active camera.".to_string()));
    assert_eq!(
        cameras.get_active_camera_mut().err(),
        Some("No currently active camera.".to_string())
    );
    cameras.attach_camera(10);
    cameras.attach_camera(20);
    assert_eq!(cameras.set_active_camera(2), Err("Out of range.".to_string()));
    assert_eq!(cameras.active_camera(), None);
    assert_eq!(cameras.set_active_camera(1), Ok(()));
    assert_eq!(cameras.active_camera(), Some(1));
    assert_eq!(cameras.get_active_camera(), Ok(&20));
    *cameras.get_active_camera_mut().unwrap() = 21;
    assert_eq!(cameras.get_camera(1), Ok(&21));
    *cameras.get_camera_mut(0).unwrap() = 11;
    assert_eq!(cameras.get_camera(0), Ok(&11));
    assert_eq!(cameras.get_camera_mut(5).err(), Some("Out of range.".to_string()));
}

#[test]
fn cameras_detach() {
    let mut cameras: Cameras<u32> = Cameras::new();
    cameras.attach_camera(10);
    cameras.attach_camera(20);
    cameras.attach_camera(30);
    cameras.set_active_camera(1).unwrap();
    assert_eq!(cameras.detach_camera(3), Err("Out of range.".to_string()));
    assert_eq!(cameras.detach_camera(0), Ok(()));
    assert_eq!(cameras.active_camera(), Some(1));
    assert_eq!(cameras.detach_camera(1), Ok(()));
    assert_eq!(cameras.active_camera(), None);
    assert_eq!(cameras.len(), 3);
    // The last empty slot is taken first.
    assert_eq!(cameras.attach_camera(40), 1);
    assert_eq!(cameras.attach_camera(50), 0);
    assert_eq!(cameras.attach_camera(60), 3);
    assert_eq!(cameras.get_camera(1), Ok(&40));
    assert_eq!(cameras.get_camera(0), Ok(&50));
}

#[test]
fn cameras_tell_which_slots_are_taken() {
    let mut cameras: Cameras<u32> = Cameras::new();
    assert!(!cameras.is_attached(0));
    cameras.attach_camera(10);
    cameras.attach_camera(20);
    assert!(cameras.is_attached(0));
    assert!(cameras.is_attached(1));
    assert!(!cameras.is_attached(2));
    cameras.detach_camera(0).unwrap();
    assert!(!cameras.is_attached(0));
    assert!(cameras.is_attached(1));
}
