use sprite_engine::{inflate, AudioType, Rect, Size};

#[test]
fn audio_type_from_extension_ignoring_case() {
    assert_eq!(AudioType::test("boom.wav"), AudioType::WAV);
    assert_eq!(AudioType::test("MUSIC.MP3"), AudioType::MP3);
    assert_eq!(AudioType::test("a/b/Theme.Ogg"), AudioType::OGG);
    assert_eq!(AudioType::test("x.flac"), AudioType::FLAC);
    assert_eq!(AudioType::test("readme.txt"), AudioType::Other);
    assert_eq!(AudioType::test(""), AudioType::Other);
    assert_eq!(AudioType::test("wav"), AudioType::WAV);
    assert_eq!(AudioType::test("üwav"), AudioType::WAV);
}

#[test]
fn size_holds_its_parts() {
    let s = Size::new(3, 4);
    assert_eq!(s.width, 3);
    assert_eq!(s.height, 4);
}

#[test]
fn inflate_grows_and_shrinks() {
    assert_eq!(inflate(&Rect::new(10, 10, 20, 20), 2, 3), Rect::new(8, 7, 24, 26));
    assert_eq!(inflate(&Rect::new(10, 10, 20, 20), -2, -1), Rect::new(12, 11, 16, 18));
}
