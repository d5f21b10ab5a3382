//! Preloading of sound streams.

use ruffle_core::audio::{AudioCompression, SoundFormat, StreamPreloader};

fn format(compression: AudioCompression) -> SoundFormat {
    SoundFormat { compression, sample_rate: 44100, is_stereo: true, is_16_bit: true }
}

#[test]
fn blocks_are_collected_after_their_headers() {
    let mut streams = StreamPreloader::new();
    streams.preload_sound_stream_head(1, format(AudioCompression::Mp3));
    streams.preload_sound_stream_head(2, format(AudioCompression::Adpcm));
    streams.preload_sound_stream_block(1, &[0, 0, 0, 0, 7, 8]);
    streams.preload_sound_stream_block(1, &[1, 1, 1, 1, 9]);
    streams.preload_sound_stream_block(2, &[5, 5, 6]);
    streams.preload_sound_stream_block(3, &[1]);
    let mp3 = streams.preload_sound_stream_end(1).unwrap();
    assert_eq!(mp3.audio_data, vec![7, 8, 9]);
    assert_eq!(mp3.format.compression, AudioCompression::Mp3);
    assert_eq!(streams.preload_sound_stream_end(2).unwrap().audio_data, vec![6]);
    assert!(streams.preload_sound_stream_end(1).is_none());
    assert!(streams.preload_sound_stream_end(3).is_none());
}

#[test]
fn a_second_head_keeps_the_first_stream() {
    let mut streams = StreamPreloader::new();
    streams.preload_sound_stream_head(1, format(AudioCompression::Mp3));
    streams.preload_sound_stream_block(1, &[0, 0, 0, 0, 7]);
    streams.preload_sound_stream_head(1, format(AudioCompression::Uncompressed));
    let stream = streams.preload_sound_stream_end(1).unwrap();
    assert_eq!(stream.format.compression, AudioCompression::Mp3);
    assert_eq!(stream.audio_data, vec![7]);
}
