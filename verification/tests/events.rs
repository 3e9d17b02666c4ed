use soundfx::consts::{id_setting, max_sounds, upload_max_size};
use soundfx::error::ErrorTypes;
use soundfx::event_handlers::{shard_id, shard_stats, stats_url, Handler, RestartTrack, VoiceUpdate};
use soundfx::models::sound::Sound;
use soundfx::utils::{not_voice_channel_reply, play_reply, reuses_call};

#[test]
fn voice_updates() {
    assert_eq!(Handler::classify_voice_update(true, Some(3), Some(1), None), VoiceUpdate::LeaveIfAlone { guild: 1, channel: 3 });
    assert_eq!(Handler::classify_voice_update(true, Some(3), Some(1), Some(4)), VoiceUpdate::Ignore);
    assert_eq!(Handler::classify_voice_update(true, None, Some(1), None), VoiceUpdate::Ignore);
    assert_eq!(Handler::classify_voice_update(false, None, Some(1), Some(4)), VoiceUpdate::Greet { guild: 1, channel: 4 });
    assert_eq!(Handler::classify_voice_update(false, None, None, Some(4)), VoiceUpdate::Ignore);
    assert!(Handler::should_leave(Some(1)));
    assert!(Handler::should_leave(None));
    assert!(!Handler::should_leave(Some(2)));
    assert_eq!(Handler::greet_sound(true, Some(5)), Some(5));
    assert_eq!(Handler::greet_sound(false, Some(5)), None);
    assert!(RestartTrack::restarts(1));
    assert!(!RestartTrack::restarts(2));
}

#[test]
fn shards() {
    let g = (7u64 << 22) | 12345;
    assert_eq!(shard_id(g, 4), 3);
    let cached = vec![3u64 << 22, 7u64 << 22, 4u64 << 22, 11u64 << 22];
    let stats = shard_stats(g, &cached, 4);
    assert_eq!((stats.server_count, stats.shard_id, stats.shard_count), (3, 3, 4));
    assert_eq!(stats_url(99), "https://top.gg/api/bots/99/stats");
}

#[test]
fn play_replies() {
    let s = Sound { name: "beep".to_string(), id: 12, public: true, server_id: 1, uploader_id: None };
    assert_eq!(play_reply(false, Some(&s)), "You are not in a voice chat!");
    assert_eq!(play_reply(true, None), "Couldn't find sound by term provided");
    assert_eq!(play_reply(true, Some(&s)), "Playing sound beep with ID 12");
    assert_eq!(not_voice_channel_reply(), "The channel specified is not a voice channel.");
    assert!(reuses_call(Some(5), 5, true));
    assert!(!reuses_call(Some(5), 5, false));
    assert!(!reuses_call(Some(4), 5, true));
    assert!(!reuses_call(None, 5, true));
}

#[test]
fn configuration() {
    assert_eq!(upload_max_size(None), Some(2097152));
    assert_eq!(upload_max_size(Some("1024")), Some(1024));
    assert_eq!(upload_max_size(Some("big")), None);
    assert_eq!(max_sounds(None), Some(8));
    assert_eq!(max_sounds(Some("20")), Some(20));
    assert_eq!(max_sounds(Some("-1")), None);
    assert_eq!(id_setting(None), None);
    assert_eq!(id_setting(Some("123")), Some(123));
    assert_eq!(ErrorTypes::InvalidFile.describe(), "ErrorTypes: InvalidFile");
}
