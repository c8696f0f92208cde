use flat::asset::{AssetLoader, Assets, Handle, HandleId, BytesLoader};
use flat::buffer::Indices;
use flat::input::Input;
use flat::mouse::{
    mouse_button_input_system, ButtonState, ModifiersState, MouseButton, MouseButtonInput, ALT, CTRL,
    LOGO, SHIFT,
};
use flat::texture::{PixelFormat, RawImage};
use flat::util::Store;
use flat::window::WindowId;

fn sorted(mut v: Vec<MouseButton>) -> Vec<MouseButton> {
    v.sort_by_key(|b| match b {
        MouseButton::Left => 0u32,
        MouseButton::Right => 1,
        MouseButton::Middle => 2,
        MouseButton::Other(n) => 3 + *n as u32,
    });
    v
}

#[test]
fn press_marks_just_pressed_once() {
    let mut input: Input<MouseButton> = Input::default();
    input.press(MouseButton::Left);
    assert!(input.pressed(MouseButton::Left));
    assert!(input.just_pressed(MouseButton::Left));
    input.clear();
    input.press(MouseButton::Left);
    assert!(input.pressed(MouseButton::Left));
    assert!(!input.just_pressed(MouseButton::Left));
}

#[test]
fn release_marks_just_released_only_when_held() {
    let mut input: Input<MouseButton> = Input::default();
    input.release(MouseButton::Right);
    assert!(!input.just_released(MouseButton::Right));
    input.press(MouseButton::Right);
    input.release(MouseButton::Right);
    assert!(!input.pressed(MouseButton::Right));
    assert!(input.just_released(MouseButton::Right));
}

#[test]
fn release_all_moves_held_to_just_released() {
    let mut input: Input<MouseButton> = Input::default();
    input.press(MouseButton::Left);
    input.press(MouseButton::Other(7));
    input.release_all();
    assert!(input.get_pressed().is_empty());
    assert_eq!(sorted(input.get_just_released()), vec![MouseButton::Left, MouseButton::Other(7)]);
    assert_eq!(sorted(input.get_just_pressed()), vec![MouseButton::Left, MouseButton::Other(7)]);
}

#[test]
fn any_queries_look_at_every_input() {
    let mut input: Input<MouseButton> = Input::default();
    input.press(MouseButton::Middle);
    assert!(input.any_pressed(&[MouseButton::Left, MouseButton::Middle]));
    assert!(!input.any_pressed(&[MouseButton::Left, MouseButton::Right]));
    assert!(input.any_just_pressed(&[MouseButton::Middle]));
    input.release(MouseButton::Middle);
    assert!(input.any_just_released(&[MouseButton::Other(1), MouseButton::Middle]));
    assert!(!input.any_just_released(&[]));
}

#[test]
fn clearing_one_input_reports_what_it_was() {
    let mut input: Input<MouseButton> = Input::default();
    input.press(MouseButton::Left);
    assert!(input.clear_just_pressed(MouseButton::Left));
    assert!(!input.clear_just_pressed(MouseButton::Left));
    assert!(input.pressed(MouseButton::Left));
    input.release(MouseButton::Left);
    assert!(input.clear_just_released(MouseButton::Left));
    assert!(!input.just_released(MouseButton::Left));
}

#[test]
fn reset_forgets_an_input() {
    let mut input: Input<MouseButton> = Input::default();
    input.press(MouseButton::Left);
    input.press(MouseButton::Right);
    input.reset(MouseButton::Left);
    assert!(!input.pressed(MouseButton::Left));
    assert!(!input.just_pressed(MouseButton::Left));
    assert!(input.pressed(MouseButton::Right));
    input.reset_all();
    assert!(input.get_pressed().is_empty());
    assert!(input.get_just_pressed().is_empty());
    assert!(input.get_just_released().is_empty());
}

#[test]
fn mouse_system_starts_a_frame_and_applies_events() {
    let mut input: Input<MouseButton> = Input::default();
    input.press(MouseButton::Left);
    let events = [
        MouseButtonInput::from_with(MouseButton::Right, ButtonState::Pressed),
        MouseButtonInput::from_with(MouseButton::Left, ButtonState::Released),
        MouseButtonInput::from_with(MouseButton::Left, ButtonState::Pressed),
    ];
    mouse_button_input_system(&mut input, &events);
    assert_eq!(sorted(input.get_pressed()), vec![MouseButton::Left, MouseButton::Right]);
    assert_eq!(sorted(input.get_just_pressed()), vec![MouseButton::Left, MouseButton::Right]);
    assert_eq!(input.get_just_released(), vec![MouseButton::Left]);
}

#[test]
fn modifier_flags_round_trip() {
    let m = ModifiersState::from_keys(true, false, true, false);
    assert_eq!(m.bits, SHIFT | ALT);
    assert_eq!(m.bits, 0b100_000_100);
    assert!(m.contains(ModifiersState::from_keys(true, false, false, false)));
    assert!(!m.contains(ModifiersState::from_keys(false, true, false, false)));
    assert_eq!(ModifiersState::from_keys(false, true, false, true).bits, CTRL | LOGO);
    assert_eq!(ModifiersState::empty().bits, 0);
}

#[test]
fn store_hands_out_sequential_keys() {
    let mut store: Store<&str> = Store::default();
    assert_eq!(store.insert("a"), 0);
    assert_eq!(store.insert("b"), 1);
    assert_eq!(store.remove(0), Some("a"));
    assert_eq!(store.remove(0), None);
    assert_eq!(store.insert("c"), 2);
    assert_eq!(store.get(1), Some(&"b"));
    assert_eq!(store.get(0), None);
    assert_eq!(store.get(9), None);
    assert_eq!(store.get(3), None);
    assert_eq!(store.remove(7), None);
    assert_eq!(store.insert("e"), 3);
    *store.get_mut(2).unwrap() = "d";
    assert_eq!(store.get(2), Some(&"d"));
    assert!(store.get_mut(0).is_none());
}

#[test]
fn assets_by_handle() {
    let id = HandleId { path_id: 1, label_id: 2 };
    let other = HandleId { path_id: 1, label_id: 3 };
    let mut assets: Assets<u32> = Assets::new();
    assets.insert(Handle::new(id), 10);
    assets.insert(Handle::new(other), 20);
    assets.insert(Handle::new(id), 11);
    assert_eq!(assets.get(Handle::new(id)), Some(&11));
    *assets.get_mut(Handle::new(other)).unwrap() += 1;
    assert_eq!(assets.get(Handle::new(other)), Some(&21));
    assets.remove(Handle::new(id));
    assert_eq!(assets.get(Handle::new(id)), None);
    assert!(assets.get_mut(Handle::new(id)).is_none());
    assert_eq!(assets.get(Handle::new(other)), Some(&21));
}

#[test]
fn handle_ids_hash_path_and_label() {
    let a = HandleId::from("shaders/main.wgsl", "");
    let b = HandleId::from("shaders/main.wgsl", "");
    let c = HandleId::from("shaders/other.wgsl", "");
    assert_eq!(a, b);
    assert_ne!(a.path_id, c.path_id);
    assert_eq!(a.label_id, c.label_id);
}

#[test]
fn bytes_loader_keeps_the_bytes() {
    let loader = BytesLoader::new();
    let asset = loader.load(&[1, 2, 3]).unwrap();
    assert_eq!(asset.0, vec![1, 2, 3]);
}

#[test]
fn indices_shift_and_extend() {
    let mut a = Indices::U16(vec![0, 1, 2]);
    a.shift(3);
    a.extend(Indices::U32(vec![70000, 5]));
    match &a {
        Indices::U16(v) => assert_eq!(v, &vec![3, 4, 5, 70000u32 as u16, 5]),
        Indices::U32(_) => panic!("width changed"),
    }
    assert_eq!(a.len(), 5);
    let mut b = Indices::U32(vec![1]);
    b.extend(Indices::U16(vec![2, 3]));
    b.extend(Indices::U32(vec![4]));
    b.shift(10);
    match &b {
        Indices::U32(v) => assert_eq!(v, &vec![11, 12, 13, 14]),
        Indices::U16(_) => panic!("width changed"),
    }
}

#[test]
fn raw_image_rows() {
    let bytes = [0u8; 24];
    let img = RawImage::new(&bytes, (3, 2), PixelFormat::RGBA8);
    assert_eq!(img.dim, (3, 2, 4));
    assert_eq!(img.bytes_per_row(), 12);
    assert_eq!(PixelFormat::G8.bytes(), 1);
    assert_eq!(PixelFormat::G8.depth(), 1);
    let gray = RawImage::new(&bytes, (5, 1), PixelFormat::G8);
    assert_eq!(gray.bytes_per_row(), 5);
}

#[test]
fn window_ids() {
    assert!(WindowId::primary().is_primary());
    assert!(!WindowId::new(3).is_primary());
    assert_eq!(WindowId::new(3).0, 3);
}
