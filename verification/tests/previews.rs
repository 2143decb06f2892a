//! Previews of images.

use commons_bot::models::{FileHit, Preferences};
use commons_bot::previews::{PreviewAction, PreviewRun};

fn image(name: &str) -> FileHit {
    FileHit {
        file_name: name.into(),
        description_url: Some(format!("https://d/{name}")),
        mime: Some("image/jpeg".into()),
        thumb_url: Some(format!("https://t/{name}")),
        ..FileHit::default()
    }
}

#[test]
fn images_are_sent_one_by_one() {
    let files = vec![image("a.jpg"), image("b.jpg"), image("c.jpg")];
    let (mut run, first) = PreviewRun::start(&files, 2, &Preferences::default());
    assert!(matches!(&first, PreviewAction::SendPhoto { url, .. } if url == "https://t/a.jpg"));
    let second = run.advance(true);
    assert!(matches!(&second, PreviewAction::SendPhoto { url, .. } if url == "https://t/b.jpg"));
    assert_eq!(run.advance(true), PreviewAction::Finish);
}

#[test]
fn a_refused_image_is_followed_by_something_else() {
    let files = vec![image("a.jpg")];
    let (mut run, first) = PreviewRun::start(&files, 5, &Preferences::default());
    let second = run.advance(false);
    assert_ne!(first, second);
    let mut steps = 0;
    let mut action = second;
    while !matches!(action, PreviewAction::Finish | PreviewAction::GiveUp) {
        action = run.advance(false);
        steps += 1;
        assert!(steps < 10);
    }
}

#[test]
fn without_images_links_are_sent() {
    let files = vec![FileHit {
        file_name: "a.ogg".into(),
        description_url: Some("https://d/a.ogg".into()),
        mime: Some("audio/ogg".into()),
        ..FileHit::default()
    }];
    let (mut run, first) = PreviewRun::start(&files, 5, &Preferences::default());
    assert!(matches!(&first, PreviewAction::SendText(text) if text.contains("a.ogg")));
    assert_eq!(run.advance(true), PreviewAction::Finish);
}

#[test]
fn rich_previews_fall_back_to_photos() {
    let preferences = Preferences {
        rich_image_previews: true,
        ..Preferences::default()
    };
    let files = vec![image("a.jpg")];
    let (mut run, first) = PreviewRun::start(&files, 5, &preferences);
    assert!(matches!(&first, PreviewAction::SendRich(html) if html.contains("https://t/a.jpg")));
    assert!(matches!(run.advance(false), PreviewAction::SendPhoto { .. }));

    let (mut run, _) = PreviewRun::start(&files, 5, &preferences);
    assert_eq!(run.advance(true), PreviewAction::Finish);
}
