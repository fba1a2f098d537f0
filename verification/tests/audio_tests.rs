use rtgc_siberian_cities::audio::{AudioChannel, SoundSources};

#[test]
fn handles_count_up() {
    let mut sounds: SoundSources<&str> = SoundSources::new();
    let a = sounds.play("engine");
    let b = sounds.play("horn");
    assert_eq!((a.id(), b.id()), (0, 1));
    assert_eq!(sounds.get(a), Some(&"engine"));
    assert_eq!(sounds.get(b), Some(&"horn"));
    assert_eq!(sounds.len(), 2);
}

#[test]
fn stop_removes_only_that_sound() {
    let mut sounds: SoundSources<u32> = SoundSources::new();
    let a = sounds.play(10);
    let b = sounds.play(20);
    let c = sounds.play(30);
    sounds.stop(b);
    assert_eq!(sounds.get(b), None);
    assert_eq!(sounds.get(a), Some(&10));
    assert_eq!(sounds.get(c), Some(&30));
    assert_eq!(sounds.len(), 2);
    sounds.stop(b);
    assert_eq!(sounds.len(), 2);
    // a stopped handle is never handed out again
    let d = sounds.play(40);
    assert_eq!(d.id(), 3);
    assert_eq!(sounds.get(b), None);
}

#[test]
fn change_a_sound_in_place() {
    let mut sounds: SoundSources<(u32, bool)> = SoundSources::new();
    let a = sounds.play((5, false));
    if let Some(s) = sounds.get_mut(a) {
        s.1 = true;
    }
    assert_eq!(sounds.get(a), Some(&(5, true)));
    sounds.stop(a);
    assert!(sounds.get_mut(a).is_none());
}

#[test]
fn channels_compare() {
    assert_ne!(AudioChannel::Music, AudioChannel::Sfx);
    assert_eq!(AudioChannel::Voice, AudioChannel::Voice);
}
