use deathframe::animation::{AnimationState, Frame, PlaybackState, PlayPolicy};
use deathframe::entity::{EntityData, SpriteRender};
use deathframe::player::PlayAnimationsSystem;

fn two_frames() -> Vec<Frame> {
    vec![
        Frame { sprite_id: 0, duration_ms: 100 },
        Frame { sprite_id: 1, duration_ms: 100 },
    ]
}

#[test]
fn looping_animation_after_250ms_shows_sprite_0() {
    // 250ms = two full 100ms frames consumed, landing 50ms into frame 0 of
    // the second loop.
    let mut a = AnimationState::new(two_frames(), PlayPolicy::Loop);
    a.update(250);
    assert_eq!(a.current_sprite_id(), Some(0));
    assert_eq!(a.time_into_frame, 50);
    assert_eq!(a.state, PlaybackState::Playing);
}

#[test]
fn looping_animation_accumulates_across_ticks() {
    let mut a = AnimationState::new(two_frames(), PlayPolicy::Loop);
    a.update(100);
    assert_eq!(a.current_sprite_id(), Some(1));
    a.update(100);
    assert_eq!(a.current_sprite_id(), Some(0));
    a.update(50);
    assert_eq!(a.current_sprite_id(), Some(0));
    assert_eq!(a.time_into_frame, 50);
}

#[test]
fn once_animation_holds_last_frame_after_250ms() {
    let mut a = AnimationState::new(two_frames(), PlayPolicy::Once);
    a.update(250);
    assert_eq!(a.current_sprite_id(), Some(1));
    assert_eq!(a.state, PlaybackState::Holding);
    // Further ticks change nothing.
    a.update(1000);
    assert_eq!(a.current_sprite_id(), Some(1));
    assert_eq!(a.state, PlaybackState::Holding);
    assert!(!a.has_new_frame());
}

#[test]
fn update_reports_frame_changes() {
    let mut a = AnimationState::new(two_frames(), PlayPolicy::Loop);
    a.update(30);
    assert!(!a.has_new_frame());
    a.update(80);
    assert!(a.has_new_frame());
    assert_eq!(a.current_sprite_id(), Some(1));
}

#[test]
fn fresh_animation_starts_at_first_frame() {
    let a = AnimationState::new(two_frames(), PlayPolicy::Once);
    assert_eq!(a.current_sprite_id(), Some(0));
    assert_eq!(a.state, PlaybackState::Playing);
}

#[test]
fn assigning_a_new_sequence_restarts_playback() {
    let mut e = EntityData::new();
    e.assign_animation(two_frames(), PlayPolicy::Once);
    if let Some(a) = &mut e.animation {
        a.update(250);
        assert_eq!(a.state, PlaybackState::Holding);
    }
    // Re-assignment re-enters Playing from the first frame.
    e.assign_animation(two_frames(), PlayPolicy::Once);
    let a = e.animation.as_ref().unwrap();
    assert_eq!(a.state, PlaybackState::Playing);
    assert_eq!(a.current_sprite_id(), Some(0));
    e.clear_animation();
    assert!(e.animation.is_none());
}

fn animated_entity(start_sprite_number: usize) -> EntityData {
    let mut e = EntityData::new();
    e.animation = Some(AnimationState::new(two_frames(), PlayPolicy::Loop));
    e.sprite_render = Some(SpriteRender { sprite_number: start_sprite_number });
    e
}

#[test]
fn player_writes_only_on_frame_index_change() {
    // Two runs within the same frame-duration window: the first write puts
    // frame 0's sprite into the stale target, the second changes nothing.
    let mut system = PlayAnimationsSystem::default();
    let mut entities = vec![animated_entity(7)];
    let w1 = system.run(&mut entities, 30);
    let w2 = system.run(&mut entities, 30);
    assert_eq!(w1, 1);
    assert_eq!(w2, 0);
    assert_eq!(w1 + w2, 1);
    assert_eq!(entities[0].sprite_render.as_ref().unwrap().sprite_number, 0);
}

#[test]
fn player_writes_again_when_frame_advances() {
    let mut system = PlayAnimationsSystem::default();
    let mut entities = vec![animated_entity(7)];
    assert_eq!(system.run(&mut entities, 10), 1);
    assert_eq!(system.run(&mut entities, 100), 1);
    assert_eq!(entities[0].sprite_render.as_ref().unwrap().sprite_number, 1);
}

#[test]
fn player_skips_ineligible_entities() {
    let mut system = PlayAnimationsSystem::default();
    let mut gated = animated_entity(7);
    gated.declare_gated((None, None));
    let mut entities = vec![gated];
    assert_eq!(system.run(&mut entities, 30), 0);
    assert_eq!(entities[0].sprite_render.as_ref().unwrap().sprite_number, 7);
    assert_eq!(entities[0].animation.as_ref().unwrap().time_into_frame, 0);

    entities[0].activate();
    assert_eq!(system.run(&mut entities, 30), 1);
    assert_eq!(entities[0].sprite_render.as_ref().unwrap().sprite_number, 0);
    assert_eq!(entities[0].animation.as_ref().unwrap().time_into_frame, 30);
}

#[test]
fn player_ignores_entities_without_animation_or_target() {
    let mut system = PlayAnimationsSystem::default();
    let mut no_target = EntityData::new();
    no_target.animation = Some(AnimationState::new(two_frames(), PlayPolicy::Loop));
    let mut no_animation = EntityData::new();
    no_animation.sprite_render = Some(SpriteRender { sprite_number: 3 });
    let mut entities = vec![no_target, no_animation, EntityData::new()];
    assert_eq!(system.run(&mut entities, 500), 0);
    assert_eq!(entities[0].animation.as_ref().unwrap().time_into_frame, 0);
    assert_eq!(entities[1].sprite_render.as_ref().unwrap().sprite_number, 3);
}
