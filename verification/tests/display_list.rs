//! Placements on the display list and the execution order of children.

use ruffle_core::display_object::display_list::{apply_place_object, DisplayList, DisplayedObject, ExecList};
use ruffle_core::display_object::goto::{ColorTransform, Matrix, PlaceObject, PlaceObjectAction};
use ruffle_core::display_object::movie_clip::DisplayObjectId;
use ruffle_core::display_object::video::{DefineVideoStream, Video};

fn place(action: PlaceObjectAction, depth: i16) -> PlaceObject {
    PlaceObject {
        version: 2,
        action,
        depth,
        matrix: None,
        color_transform: None,
        ratio: None,
        name: None,
        clip_depth: None,
        class_name: None,
        background_color: None,
    }
}

fn instance(character_id: u16, is_morph_shape: bool) -> DisplayedObject {
    DisplayedObject {
        character_id,
        matrix: Matrix::default(),
        color_transform: ColorTransform::default(),
        name: String::new(),
        clip_depth: 0,
        is_morph_shape,
        ratio: 0,
    }
}

fn moved(x: i32) -> Matrix {
    Matrix { translate_x: x, ..Matrix::default() }
}

#[test]
fn placements_set_properties() {
    let mut list = DisplayList::new();
    let mut p = place(PlaceObjectAction::Place(4), 1);
    p.matrix = Some(moved(20));
    p.name = Some("hero".to_string());
    p.ratio = Some(9);
    list.place_object(&p, Some(instance(4, false)));
    let obj = list.get(1).unwrap();
    assert_eq!(obj.character_id, 4);
    assert_eq!(obj.matrix, moved(20));
    assert_eq!(obj.name, "hero");
    assert_eq!(obj.ratio, 0);
}

#[test]
fn failed_instantiation_changes_nothing() {
    let mut list = DisplayList::new();
    list.place_object(&place(PlaceObjectAction::Place(4), 1), None);
    assert!(list.get(1).is_none());
}

#[test]
fn modification_applies_to_the_object_there() {
    let mut list = DisplayList::new();
    list.place_object(&place(PlaceObjectAction::Place(4), 1), Some(instance(4, true)));
    let mut m = place(PlaceObjectAction::Modify, 1);
    m.ratio = Some(7);
    m.clip_depth = Some(3);
    list.place_object(&m, None);
    let obj = list.get(1).unwrap();
    assert_eq!((obj.ratio, obj.clip_depth), (7, 3));
    list.place_object(&place(PlaceObjectAction::Modify, 2), None);
    assert!(list.get(2).is_none());
}

#[test]
fn replacement_keeps_the_transform() {
    let mut list = DisplayList::new();
    let mut p = place(PlaceObjectAction::Place(4), 1);
    p.matrix = Some(moved(50));
    list.place_object(&p, Some(instance(4, false)));
    list.place_object(&place(PlaceObjectAction::Replace(5), 1), Some(instance(5, false)));
    let obj = list.get(1).unwrap();
    assert_eq!(obj.character_id, 5);
    assert_eq!(obj.matrix, moved(50));
    assert_eq!(list.remove_object(1).map(|o| o.character_id), Some(5));
    assert!(list.remove_object(1).is_none());
}

#[test]
fn applying_nothing_keeps_an_object() {
    let mut obj = instance(3, true);
    apply_place_object(&mut obj, &place(PlaceObjectAction::Modify, 0));
    assert_eq!(obj.matrix, Matrix::default());
    assert_eq!(obj.ratio, 0);
}

#[test]
fn exec_list_runs_newest_first() {
    let mut exec = ExecList::new();
    exec.add_child_to_exec_list(DisplayObjectId(1));
    exec.add_child_to_exec_list(DisplayObjectId(2));
    exec.add_child_to_exec_list(DisplayObjectId(3));
    assert_eq!(exec.children(), &vec![DisplayObjectId(3), DisplayObjectId(2), DisplayObjectId(1)]);
    exec.remove_child_from_exec_list(DisplayObjectId(2));
    assert_eq!(exec.children(), &vec![DisplayObjectId(3), DisplayObjectId(1)]);
    exec.remove_child_from_exec_list(DisplayObjectId(9));
    assert_eq!(exec.children().len(), 2);
}

#[test]
fn video_frames_are_kept_by_number() {
    let stream = DefineVideoStream { id: 12, num_frames: 3, width: 320, height: 240 };
    let mut video = Video::from_swf_tag(stream);
    assert_eq!(video.id(), 12);
    assert!(video.frame(1).is_none());
    video.preload_swf_frame(1, vec![1, 2, 3]);
    video.preload_swf_frame(2, vec![4]);
    video.preload_swf_frame(1, vec![9]);
    assert_eq!(video.frame(1), Some(&vec![9]));
    assert_eq!(video.frame(2), Some(&vec![4]));
}
