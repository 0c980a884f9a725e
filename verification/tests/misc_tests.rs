use canticlec_churn::audio_engine::AudioError;
use canticlec_churn::sample_manager::{audio_sample_names, SampleManager};
use canticlec_churn::text::{int_to_text, uint_to_text};

#[test]
fn audio_errors_read_as_messages() {
    assert_eq!(AudioError::OutputError("no device".to_string()).message(), "Failed to initialize audio output: no device");
    assert_eq!(AudioError::PlayError("x".to_string()).message(), "Failed to play audio: x");
    assert_eq!(AudioError::DecodeError("bad".to_string()).message(), "Failed to decode audio file: bad");
    assert_eq!(AudioError::ChannelNotFound(3).message(), "Channel 3 not found");
    assert_eq!(AudioError::SampleNotFound("kick.wav".to_string()).message(), "Sample kick.wav not found");
}

#[test]
fn io_errors_convert_and_keep_their_text() {
    let e = std::io::Error::new(std::io::ErrorKind::Other, "disk gone");
    let a = AudioError::from(e);
    assert!(matches!(a, AudioError::IoError(_)));
    assert_eq!(a.message(), "IO error: disk gone");
}

#[test]
fn local_path_puts_the_sample_in_its_folder() {
    let m = SampleManager { samples_dir: "samples".to_string() };
    let p = m.get_local_path("kick.wav");
    let sep = std::path::MAIN_SEPARATOR;
    assert_eq!(p, format!("samples{}kick.wav", sep));
}

#[test]
fn numbers_are_written_in_decimal() {
    assert_eq!(uint_to_text(0), "0");
    assert_eq!(uint_to_text(1234567), "1234567");
    assert_eq!(uint_to_text(u64::MAX), u64::MAX.to_string());
    assert_eq!(int_to_text(-42), "-42");
    assert_eq!(int_to_text(i64::MIN), i64::MIN.to_string());
}

#[test]
fn only_wav_and_mp3_files_are_listed_in_byte_order() {
    let names: Vec<String> = vec!["kick.wav", "notes.txt", "Snare.mp3", "bass.wav", "loop.WAV", "a.mp3", "kick.wav"]
        .into_iter()
        .map(|s| s.to_string())
        .collect();
    let listed = audio_sample_names(&names);
    assert_eq!(listed, vec!["Snare.mp3", "a.mp3", "bass.wav", "kick.wav", "kick.wav"]);
}

#[test]
fn an_empty_folder_lists_no_samples() {
    assert!(audio_sample_names(&Vec::new()).is_empty());
    assert!(audio_sample_names(&vec!["readme.md".to_string(), ".wav.bak".to_string()]).is_empty());
}
