use fool_engine::audio::{AudioError, AudioRegistry, MusicId};

fn id(t: &str, m: &str) -> MusicId {
    MusicId { track: t.to_string(), music: m.to_string() }
}

#[test]
fn effects_are_found_by_group_and_name() {
    let mut r = AudioRegistry::new();
    r.add_group("sfx".to_string(), vec!["reverb".to_string(), "delay".to_string()]);
    assert!(r.set_effect("sfx", "reverb").is_ok());
    match r.set_effect("sfx", "chorus") {
        Err(AudioError::EffectNotFound(n)) => assert_eq!(n, "chorus"),
        other => panic!("unexpected {:?}", other),
    }
    // an unknown group is reported under the effect's name
    match r.set_effect("music", "reverb") {
        Err(e @ AudioError::GroupNotFound(_)) => assert_eq!(e.message(), "group reverb Not Found!"),
        other => panic!("unexpected {:?}", other),
    }
}

#[test]
fn replacing_a_group_replaces_its_effects() {
    let mut r = AudioRegistry::new();
    r.add_group("sfx".to_string(), vec!["reverb".to_string()]);
    r.add_group("sfx".to_string(), vec!["delay".to_string()]);
    assert!(r.set_effect("sfx", "delay").is_ok());
    assert!(r.set_effect("sfx", "reverb").is_err());
}

#[test]
fn play_checks_group_then_audio() {
    let mut r = AudioRegistry::new();
    match r.check_play("bgm", "song", true) {
        Err(e @ AudioError::GroupNotFound(_)) => assert_eq!(e.message(), "group bgm Not Found!"),
        other => panic!("unexpected {:?}", other),
    }
    r.add_group("bgm".to_string(), vec![]);
    match r.check_play("bgm", "song", false) {
        Err(e @ AudioError::AudioNotFound(_)) => assert_eq!(e.message(), "audio song Not Found!"),
        other => panic!("unexpected {:?}", other),
    }
    assert!(r.check_play("bgm", "song", true).is_ok());
}

#[test]
fn started_music_can_be_controlled() {
    let mut r = AudioRegistry::new();
    match r.find_playing("bgm", "song") {
        Err(e @ AudioError::NotPlaying { .. }) => {
            assert_eq!(e.message(), "audio song of group bgm Not Found!")
        }
        other => panic!("unexpected {:?}", other),
    }
    r.started(id("bgm", "song"));
    assert!(r.find_playing("bgm", "song").is_ok());
    assert!(r.find_playing("sfx", "song").is_err());
    r.started(id("bgm", "song"));
    assert!(r.find_playing("bgm", "song").is_ok());
}

#[test]
fn effect_message() {
    assert_eq!(AudioError::EffectNotFound("x".to_string()).message(), "effect x Not Found!");
}
