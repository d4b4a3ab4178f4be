use chemarium::{Rect, Sprite};

#[test]
fn new_sprite_has_no_text() {
    let sprite = Sprite::new();
    assert!(!sprite.has_text());
}

#[test]
fn sprite_covers_its_rendered_text() {
    let mut sprite = Sprite::new();
    sprite.text(120, 18);
    assert!(sprite.has_text());
    assert_eq!(sprite.rect(), Rect { x: 0, y: 0, width: 120, height: 18 });
}

#[test]
fn sprite_keeps_the_last_rendering_only() {
    let mut sprite = Sprite::new();
    sprite.text(120, 18);
    sprite.text(7, 9);
    assert_eq!(sprite.rect(), Rect { x: 0, y: 0, width: 7, height: 9 });
    sprite.text(u32::MAX, 0);
    assert_eq!(sprite.rect(), Rect { x: 0, y: 0, width: u32::MAX, height: 0 });
}
