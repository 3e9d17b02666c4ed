use soundfx::models::guild_data::GuildData;
use soundfx::models::sound::{cache_path, extract_id, sound_query, transcode_args, Sound, SoundQuery};

fn sound(name: &str, id: u32) -> Sound {
    Sound { name: name.to_string(), id, public: true, server_id: 1, uploader_id: Some(2) }
}

#[test]
fn extract_id_reads_ids() {
    assert_eq!(extract_id("12"), Some(12));
    assert_eq!(extract_id("id:12"), Some(12));
    assert_eq!(extract_id("ID:12"), Some(12));
    assert_eq!(extract_id("iD:7"), Some(7));
    assert_eq!(extract_id("id:"), None);
    assert_eq!(extract_id("id:x"), None);
    assert_eq!(extract_id("beep"), None);
    assert_eq!(extract_id("id: 5"), None);
    assert_eq!(extract_id("+3"), Some(3));
    assert_eq!(extract_id("id:99999999999"), None);
}

#[test]
fn extract_id_matches_lowercase_prefix_rule() {
    for s in ["id:5", "Id:5", "İd:5", "ID:005", "id:+5", "id5", "5", "ıd:5", "", "id:"] {
        let expected = if s.len() > 3 && s.to_lowercase().starts_with("id:") {
            s[3..].parse::<u32>().ok()
        } else {
            s.parse::<u32>().ok()
        };
        assert_eq!(extract_id(s), expected, "input {:?}", s);
    }
}

#[test]
fn id_terms_round_trip() {
    for id in [0u32, 42, u32::MAX] {
        assert_eq!(extract_id(&id.to_string()), Some(id));
        assert_eq!(extract_id(&format!("id:{}", id)), Some(id));
    }
}

#[test]
fn sound_query_chooses_lookup() {
    assert!(matches!(sound_query("id:3", true), SoundQuery::Id(3)));
    assert!(matches!(sound_query("3", false), SoundQuery::Id(3)));
    match sound_query("beep", true) {
        SoundQuery::Name(n) => assert_eq!(n, "beep"),
        _ => panic!("expected an exact name lookup"),
    }
    match sound_query("bee", false) {
        SoundQuery::NameFragment(n) => assert_eq!(n, "bee"),
        _ => panic!("expected a fragment lookup"),
    }
}

#[test]
fn sounds_are_equal_by_id() {
    let a = sound("a", 1);
    let mut b = sound("b", 1);
    assert!(a == b);
    b.id = 2;
    assert!(a != b);
    let c = a.duplicate();
    assert_eq!(c.name, "a");
    assert_eq!(c.id, 1);
}

#[test]
fn cache_paths() {
    assert_eq!(cache_path(None, 17), "/tmp/sound-17");
    assert_eq!(cache_path(Some("/var/cache"), 0), "/var/cache/sound-0");
}

#[test]
fn transcode_arguments() {
    let args = transcode_args("https://x/y.mp3", 2097152);
    assert_eq!(
        args,
        vec!["-i", "https://x/y.mp3", "-loglevel", "error", "-f", "opus", "-fs", "2097152", "pipe:1"]
    );
    let old = soundfx::sound::transcode_args("u", 1048576);
    assert_eq!(
        old,
        vec!["-i", "u", "-loglevel", "error", "-b:a", "28000", "-f", "opus", "-fs", "1048576", "pipe:1"]
    );
    let old = soundfx::sound::transcode_args("u", 2097152);
    assert_eq!(
        old,
        vec!["-i", "u", "-loglevel", "error", "-b:a", "28000", "-f", "opus", "-fs", "2097152", "pipe:1"]
    );
}

#[test]
fn guild_defaults_and_volume() {
    let mut g = GuildData::new(55);
    assert_eq!(g.id, 55);
    assert_eq!(g.prefix, "?");
    assert_eq!(g.volume, 100);
    assert!(g.allow_greets);
    assert_eq!(g.allowed_role, None);
    g.set_volume(300);
    assert_eq!(g.volume, 44);
    g.set_volume(255);
    assert_eq!(g.volume, 255);
    g.set_allow_greets(false);
    assert!(!g.allow_greets);
    let old = soundfx::guild_data::GuildData::new(3);
    assert_eq!((old.id, old.prefix.as_str(), old.volume, old.allow_greets), (3, "?", 100, true));
    let oldest = soundfx::guilddata::GuildData::from_guild(4, "Server");
    assert_eq!((oldest.id, oldest.name.as_deref(), oldest.prefix.as_str(), oldest.volume), (4, Some("Server"), "?", 100));
}
