//! Preloading and the tag actions of frames.

use ruffle_core::display_object::goto::PlaceObjectAction;
use ruffle_core::display_object::preload::{
    frame_tag_action, goto_tag_action, preload_action, preload_walk, stops_audio_stream, FrameTagAction,
    PreloadAction, PreloadEvent, PreloadOutput, PreloadState,
};
use ruffle_core::display_object::movie_clip::MovieClip;
use ruffle_core::tag_decoder::TagCode;

#[test]
fn preload_actions_carry_versions() {
    assert_eq!(preload_action(TagCode::DefineShape3), PreloadAction::DefineShape(3));
    assert_eq!(preload_action(TagCode::DefineBitsLossless2), PreloadAction::DefineBitsLossless(2));
    assert_eq!(preload_action(TagCode::PlaceObject), PreloadAction::PlaceObject(1));
    assert_eq!(preload_action(TagCode::DoAction), PreloadAction::Skip);
    assert_eq!(preload_action(TagCode::ShowFrame), PreloadAction::ShowFrame);
}

#[test]
fn preload_counts_frames_and_streams() {
    let mut state = PreloadState::new();
    assert_eq!(state.cur_frame(), 1);
    assert_eq!(state.sound_stream_block(), None);
    state.show_frame();
    assert_eq!(state.sound_stream_head(), 2);
    state.show_frame();
    assert_eq!(state.sound_stream_block(), Some(3));
}

#[test]
fn preload_tracks_morph_shapes() {
    let morphs = [7u16, 9];
    let mut state = PreloadState::new();
    assert_eq!(state.place_object(PlaceObjectAction::Place(7), 1, Some(100), &morphs), Some((7, 100)));
    assert_eq!(state.place_object(PlaceObjectAction::Place(3), 2, Some(5), &morphs), None);
    assert_eq!(state.morph_at(2), None);
    assert_eq!(state.place_object(PlaceObjectAction::Modify, 1, Some(200), &morphs), Some((7, 200)));
    assert_eq!(state.place_object(PlaceObjectAction::Modify, 1, None, &morphs), None);
    assert_eq!(state.place_object(PlaceObjectAction::Replace(3), 1, Some(1), &morphs), None);
    assert_eq!(state.morph_at(1), None);
    assert_eq!(state.place_object(PlaceObjectAction::Replace(9), 4, None, &morphs), None);
    assert_eq!(state.morph_at(4), Some(9));
    state.remove_object(4);
    assert_eq!(state.morph_at(4), None);
}

#[test]
fn frame_tags_and_goto_tags() {
    assert_eq!(frame_tag_action(TagCode::PlaceObject2, true), FrameTagAction::PlaceObject(2));
    assert_eq!(frame_tag_action(TagCode::PlaceObject2, false), FrameTagAction::Skip);
    assert_eq!(frame_tag_action(TagCode::DoAction, false), FrameTagAction::DoAction);
    assert_eq!(goto_tag_action(TagCode::DoAction), FrameTagAction::Skip);
    assert_eq!(goto_tag_action(TagCode::RemoveObject2), FrameTagAction::RemoveObject(2));
    assert!(stops_audio_stream(&[FrameTagAction::DoAction]));
    assert!(!stops_audio_stream(&[FrameTagAction::DoAction, FrameTagAction::SoundStreamBlock]));
}

#[test]
fn a_preload_walk_follows_frames_streams_and_morphs() {
    let mut state = PreloadState::new();
    let mut morphs = vec![];
    let events = vec![
        PreloadEvent::SoundStreamBlock,
        PreloadEvent::FrameLabel("intro".to_string()),
        PreloadEvent::DefineMorphShape(4),
        PreloadEvent::PlaceObject { action: PlaceObjectAction::Place(4), depth: 1, ratio: Some(0) },
        PreloadEvent::ShowFrame,
        PreloadEvent::SoundStreamHead,
        PreloadEvent::SoundStreamBlock,
        PreloadEvent::PlaceObject { action: PlaceObjectAction::Modify, depth: 1, ratio: Some(300) },
        PreloadEvent::PlaceObject { action: PlaceObjectAction::Place(9), depth: 2, ratio: Some(5) },
        PreloadEvent::ShowFrame,
        PreloadEvent::RemoveObject(1),
        PreloadEvent::PlaceObject { action: PlaceObjectAction::Modify, depth: 1, ratio: Some(7) },
    ];
    let out = preload_walk(&mut state, &mut morphs, &events);
    assert_eq!(
        out,
        vec![
            PreloadOutput::Label("intro".to_string(), 1),
            PreloadOutput::MorphRatio(4, 0),
            PreloadOutput::StreamHead(2),
            PreloadOutput::StreamBlock(2),
            PreloadOutput::MorphRatio(4, 300),
        ]
    );
    assert_eq!(state.cur_frame(), 3);
    assert_eq!(morphs, vec![4]);
    assert_eq!(state.morph_at(1), None);
    assert!(state.ends_sound_stream());

    let mut clip = MovieClip::new_with_data(1, 2);
    clip.add_frame_label("outro".to_string(), 2);
    clip.add_preload_labels(&vec![
        PreloadOutput::Label("Intro".to_string(), 1),
        PreloadOutput::StreamHead(2),
        PreloadOutput::Label("OUTRO".to_string(), 1),
    ]);
    assert_eq!(clip.frame_label_to_number("intro"), Some(1));
    assert_eq!(clip.frame_label_to_number("Outro"), Some(2));
}
