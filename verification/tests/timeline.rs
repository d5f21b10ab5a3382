//! Movie clip playheads, children, and goto commands.

use ruffle_core::display_object::goto::{
    goto_command_action, rewind_removals, ColorTransform, GotoCommandAction, GotoCommands, GotoPlaceObject, Matrix,
    FrameTags, GotoTag, PlaceObject, PlaceObjectAction,
};
use ruffle_core::display_object::movie_clip::{DisplayObjectId, FrameAdvance, GotoPlan, MovieClip};

fn place(action: PlaceObjectAction, depth: i16) -> PlaceObject {
    PlaceObject {
        version: 2,
        action,
        depth,
        matrix: None,
        color_transform: None,
        ratio: None,
        name: None,
        clip_depth: None,
        class_name: None,
        background_color: None,
    }
}

#[test]
fn goto_plans() {
    let mut clip = MovieClip::new_with_data(1, 10);
    assert_eq!(clip.goto_frame(5, true), Some(GotoPlan { is_rewind: false, clamped_frame: 5 }));
    assert!(!clip.playing());
    assert_eq!(clip.goto_frame(99, false), Some(GotoPlan { is_rewind: false, clamped_frame: 10 }));
    assert!(clip.playing());
    clip.step_goto_frame(40);
    clip.step_goto_frame(80);
    assert_eq!(clip.current_frame(), 2);
    assert_eq!(clip.goto_frame(2, true), None);
    assert_eq!(clip.goto_frame(0, true), Some(GotoPlan { is_rewind: true, clamped_frame: 1 }));
    assert_eq!(clip.prev_frame(), Some(GotoPlan { is_rewind: true, clamped_frame: 1 }));
    assert_eq!(clip.next_frame(), Some(GotoPlan { is_rewind: false, clamped_frame: 3 }));
}

#[test]
fn playhead_advances_and_loops() {
    let mut clip = MovieClip::new_with_data(1, 2);
    assert_eq!(clip.advance_frame(), FrameAdvance::Advanced);
    assert_eq!(clip.advance_frame(), FrameAdvance::Advanced);
    assert_eq!(clip.current_frame(), 2);
    assert_eq!(clip.advance_frame(), FrameAdvance::Looped);
    let mut single = MovieClip::new_with_data(2, 1);
    single.advance_frame();
    assert_eq!(single.advance_frame(), FrameAdvance::Stopped);
    assert!(!single.playing());
    single.play();
    assert!(!single.playing());
}

#[test]
fn frame_labels_ignore_case_and_first_stands() {
    let mut clip = MovieClip::new_with_data(1, 10);
    clip.add_frame_label("Intro".to_string(), 2);
    clip.add_frame_label("loop".to_string(), 5);
    clip.add_frame_label("INTRO".to_string(), 7);
    assert_eq!(clip.frame_label_to_number("intro"), Some(2));
    assert_eq!(clip.frame_label_to_number("Loop"), Some(5));
    assert_eq!(clip.frame_label_to_number("outro"), None);
}

#[test]
fn children_by_depth() {
    let mut clip = MovieClip::new();
    assert_eq!(clip.highest_depth(), None);
    assert_eq!(clip.add_child_from_avm(DisplayObjectId(1), 3), None);
    assert_eq!(clip.add_child_from_avm(DisplayObjectId(2), -4), None);
    assert_eq!(clip.highest_depth(), Some(3));
    assert_eq!(clip.swap_child_to_depth(3, 9), None);
    assert_eq!(clip.child_at_depth(9), Some(DisplayObjectId(1)));
    assert_eq!(clip.child_at_depth(3), None);
    assert_eq!(clip.swap_child_to_depth(9, -4), Some(DisplayObjectId(2)));
    assert_eq!(clip.child_at_depth(9), Some(DisplayObjectId(2)));
    assert_eq!(clip.child_at_depth(-4), Some(DisplayObjectId(1)));
    assert_eq!(clip.remove_child_from_avm(9), Some(DisplayObjectId(2)));
    assert_eq!(clip.highest_depth(), Some(-4));
}

#[test]
fn rewind_gives_placements_their_defaults() {
    let cmd = GotoPlaceObject::new(3, place(PlaceObjectAction::Place(12), 1), true, 1);
    assert_eq!(cmd.place_object.matrix, Some(Matrix::default()));
    assert_eq!(cmd.place_object.color_transform, Some(ColorTransform::default()));
    assert_eq!(cmd.place_object.ratio, Some(0));
    assert_eq!(cmd.place_object.name, Some(String::new()));
    assert_eq!(cmd.place_object.clip_depth, Some(0));
    assert_eq!(Matrix::default().scale_x, 1.0f32.to_bits());
    let forward = GotoPlaceObject::new(3, place(PlaceObjectAction::Place(12), 1), false, 1);
    assert_eq!(forward.place_object.matrix, None);
    let modify = GotoPlaceObject::new(3, place(PlaceObjectAction::Modify, 1), true, 1);
    assert_eq!(modify.place_object.ratio, None);
}

#[test]
fn merging_keeps_the_first_placement() {
    let mut first = GotoPlaceObject::new(2, place(PlaceObjectAction::Place(5), 1), false, 1);
    let mut later = place(PlaceObjectAction::Modify, 1);
    later.ratio = Some(9);
    let mut modify = GotoPlaceObject::new(4, later, false, 2);
    first.merge(&mut modify);
    assert_eq!(first.frame, 2);
    assert_eq!(first.id(), 5);
    assert_eq!(first.place_object.ratio, Some(9));
    let mut replace = GotoPlaceObject::new(6, place(PlaceObjectAction::Replace(8), 1), false, 3);
    first.merge(&mut replace);
    assert_eq!(first.frame, 6);
    assert!(first.modifies_original_item());
    assert_eq!(first.place_object.ratio, Some(9));
    assert_eq!(first.index, 1);
}

#[test]
fn goto_commands_aggregate_by_depth() {
    let mut commands = GotoCommands::new();
    commands.place_object(1, place(PlaceObjectAction::Place(10), 1), false);
    commands.place_object(1, place(PlaceObjectAction::Place(11), 2), false);
    commands.place_object(2, place(PlaceObjectAction::Modify, 1), false);
    commands.place_object(3, place(PlaceObjectAction::Place(12), 3), false);
    commands.remove_object(2);
    commands.place_object(4, place(PlaceObjectAction::Place(13), 2), false);
    let (before, after) = commands.split_at_frame(3);
    let before: Vec<(i16, u16, usize)> = before.iter().map(|c| (c.depth(), c.id(), c.index)).collect();
    let after: Vec<(i16, u16, usize)> = after.iter().map(|c| (c.depth(), c.id(), c.index)).collect();
    assert_eq!(before, vec![(1, 10, 1)]);
    assert_eq!(after, vec![(3, 12, 4), (2, 13, 5)]);
}

#[test]
fn goto_command_actions() {
    let modify = GotoPlaceObject::new(1, place(PlaceObjectAction::Modify, 1), false, 1);
    let placed = GotoPlaceObject::new(1, place(PlaceObjectAction::Place(3), 1), false, 1);
    assert_eq!(goto_command_action(true, &modify, false), GotoCommandAction::ApplyToExisting);
    assert_eq!(goto_command_action(true, &placed, false), GotoCommandAction::Instantiate);
    assert_eq!(goto_command_action(true, &placed, true), GotoCommandAction::ApplyToExisting);
    assert_eq!(goto_command_action(false, &modify, true), GotoCommandAction::Instantiate);
}

#[test]
fn rewinds_remove_later_children() {
    let children = [(1, 1), (2, 5), (3, 3), (4, 4)];
    assert_eq!(rewind_removals(&children, 3).to_vec(), vec![2, 4]);
    assert_eq!(rewind_removals(&children, 9).to_vec(), Vec::<i16>::new());
}

#[test]
fn swapping_twice_restores_the_children() {
    let mut clip = MovieClip::new();
    clip.add_child_from_avm(DisplayObjectId(1), 1);
    clip.add_child_from_avm(DisplayObjectId(2), 2);
    clip.swap_child_to_depth(1, 2);
    clip.swap_child_to_depth(2, 1);
    assert_eq!(clip.child_at_depth(1), Some(DisplayObjectId(1)));
    assert_eq!(clip.child_at_depth(2), Some(DisplayObjectId(2)));
}

#[test]
fn loading_a_movie_keeps_the_children() {
    let mut clip = MovieClip::new_with_data(7, 3);
    clip.add_child_from_avm(DisplayObjectId(11), 5);
    clip.add_frame_label("start".to_string(), 2);
    clip.goto_frame(2, true);
    clip.replace_with_movie(9);
    assert_eq!(clip.current_frame(), 0);
    assert_eq!(clip.total_frames(), 9);
    assert!(clip.playing());
    assert_eq!(clip.highest_depth(), Some(5));
    assert_eq!(clip.child_at_depth(5), Some(DisplayObjectId(11)));
    assert_eq!(clip.frame_label_to_number("start"), None);
}

fn timeline() -> Vec<FrameTags> {
    vec![
        FrameTags { start: 10, tags: vec![GotoTag::Place(place(PlaceObjectAction::Place(5), 1))] },
        FrameTags { start: 20, tags: vec![GotoTag::Place(place(PlaceObjectAction::Place(6), 2))] },
        FrameTags { start: 30, tags: vec![GotoTag::Remove(1), GotoTag::Remove(3)] },
    ]
}

#[test]
fn a_forward_goto_walks_to_its_target() {
    let mut clip = MovieClip::new_with_data(1, 3);
    clip.add_child_from_avm(DisplayObjectId(8), 3);
    let walk = clip.run_goto(&[(3, 1)], &timeline(), 3);
    assert!(!walk.is_rewind);
    assert!(walk.hit_target_frame);
    assert_eq!(clip.current_frame(), 2);
    assert_eq!(walk.removed, vec![DisplayObjectId(8)]);
    assert_eq!(clip.child_at_depth(3), None);
    let (before, from) = walk.commands.split_at_frame(3);
    assert_eq!(before.len(), 1);
    assert_eq!(before[0].place_object.depth, 2);
    assert_eq!(before[0].frame, 2);
    assert_eq!(before[0].index, 2);
    assert!(from.is_empty());
}

#[test]
fn a_goto_past_the_end_stops_on_the_last_frame() {
    let mut clip = MovieClip::new_with_data(1, 3);
    let walk = clip.run_goto(&[], &timeline(), 9);
    assert!(!walk.hit_target_frame);
    assert_eq!(clip.current_frame(), 3);
}

#[test]
fn a_rewind_removes_later_children_and_replays() {
    let mut clip = MovieClip::new_with_data(1, 3);
    let frames = timeline();
    clip.run_goto(&[], &frames, 3);
    clip.advance_frame();
    assert_eq!(clip.current_frame(), 3);
    clip.add_child_from_avm(DisplayObjectId(6), 2);
    clip.add_child_from_avm(DisplayObjectId(9), 7);
    let walk = clip.run_goto(&[(2, 1), (7, 3)], &frames, 1);
    assert!(walk.is_rewind);
    assert!(walk.hit_target_frame);
    assert_eq!(clip.current_frame(), 0);
    assert_eq!(walk.removed, vec![DisplayObjectId(9)]);
    assert_eq!(clip.child_at_depth(2), Some(DisplayObjectId(6)));
    assert_eq!(clip.child_at_depth(7), None);
    let (before, from) = walk.commands.split_at_frame(1);
    assert!(before.is_empty());
    assert_eq!(from.len(), 1);
    assert_eq!(from[0].place_object.depth, 1);
    assert_eq!(from[0].place_object.matrix, Some(Matrix::default()));
}

#[test]
fn gotos_and_loads_stop_the_sound_stream() {
    let mut clip = MovieClip::new_with_data(1, 3);
    clip.set_audio_stream(7);
    assert_eq!(clip.audio_stream(), Some(7));
    let walk = clip.run_goto(&[], &timeline(), 2);
    assert_eq!(walk.stopped_stream, Some(7));
    assert_eq!(clip.audio_stream(), None);
    clip.set_audio_stream(8);
    clip.replace_with_movie(4);
    assert_eq!(clip.audio_stream(), None);
    assert_eq!(clip.stop_audio_stream(), None);
}
