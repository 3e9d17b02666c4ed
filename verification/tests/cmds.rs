use soundfx::cmds::info::{help_description, info_description};
use soundfx::cmds::manage::{
    check_upload_name, delete_outcome, delete_reply, is_numeric, toggle_visibility, upload_step,
    visibility_reply, DeleteOutcome, UploadAction, UploadEvent, UploadNameCheck, UploadStep,
    VisibilityOutcome,
};
use soundfx::cmds::play::{
    autocomplete_choices, first_results, present_terms, queue_reply, soundboard_rows, soundboard_sounds,
};
use soundfx::cmds::search::{format_search_results, is_pager_button, max_page, ButtonStyle, ListContext, SoundPager};
use soundfx::cmds::settings::{greet_set_reply, greet_toggle_reply, greet_unset_reply, volume_reply};
use soundfx::models::sound::Sound;

fn sound(name: &str, id: u32, public: bool, server_id: u64, uploader_id: Option<u64>) -> Sound {
    Sound { name: name.to_string(), id, public, server_id, uploader_id }
}

#[test]
fn upload_names() {
    assert_eq!(check_upload_name("beep"), UploadNameCheck::Accepted);
    assert_eq!(check_upload_name(""), UploadNameCheck::BadLength);
    assert_eq!(check_upload_name("abcdefghijklmnopqrst"), UploadNameCheck::Accepted);
    assert_eq!(check_upload_name("abcdefghijklmnopqrstu"), UploadNameCheck::BadLength);
    assert_eq!(check_upload_name("ééééééééééé"), UploadNameCheck::BadLength);
    assert_eq!(check_upload_name("1234"), UploadNameCheck::Numeric);
    assert_eq!(check_upload_name("12a4"), UploadNameCheck::Accepted);
    assert!(is_numeric(""));
    assert!(!is_numeric("٣"));
}

fn respond_text(a: &UploadAction) -> &str {
    match a {
        UploadAction::Respond(t) | UploadAction::Followup(t) | UploadAction::PromptForFile(t) => t.as_str(),
        _ => panic!("expected a message"),
    }
}

#[test]
fn upload_with_attachment() {
    let (s, a) = upload_step(8, UploadStep::Start, UploadEvent::Begin { name: "beep".to_string() });
    assert!(matches!(&a, UploadAction::CountNamedSounds { name } if name == "beep"));
    let (s, a) = upload_step(8, s, UploadEvent::NamedCount(0));
    assert!(matches!(a, UploadAction::CountUserSounds));
    let (s, a) = upload_step(8, s, UploadEvent::SoundCount(3));
    assert!(matches!(a, UploadAction::LookForAttachment));
    let (s, a) = upload_step(8, s, UploadEvent::Attachment(Some("https://f".to_string())));
    assert!(matches!(&a, UploadAction::CreateSound { name, url } if name == "beep" && url == "https://f"));
    let (s, a) = upload_step(8, s, UploadEvent::Created(true));
    assert!(matches!(s, UploadStep::Finished));
    assert_eq!(respond_text(&a), "Sound has been uploaded");
}

#[test]
fn upload_refusals() {
    let (_, a) = upload_step(8, UploadStep::Start, UploadEvent::Begin { name: String::new() });
    assert_eq!(respond_text(&a), "Usage: `/upload <name>`. Please ensure the name provided is less than 20 characters in length");
    let (_, a) = upload_step(8, UploadStep::Start, UploadEvent::Begin { name: "42".to_string() });
    assert_eq!(respond_text(&a), "Please ensure the sound name contains a non-numerical character");
    let (_, a) = upload_step(8, UploadStep::AwaitNamedCount { name: "beep".to_string() }, UploadEvent::NamedCount(1));
    assert_eq!(respond_text(&a), "You are already using that name. Please choose a unique name for your upload.");
    let (s, a) = upload_step(8, UploadStep::AwaitSoundCount { name: "beep".to_string() }, UploadEvent::SoundCount(8));
    assert!(matches!(a, UploadAction::CheckPatreonRole));
    let (_, a) = upload_step(8, s, UploadEvent::PatreonRole(None));
    assert_eq!(respond_text(&a), "You have reached the maximum number of sounds (8). Either delete some with `/delete` or join our Patreon for unlimited uploads at **https://patreon.com/jellywx**");
    let (_, a) = upload_step(8, UploadStep::AwaitPatreon { name: "beep".to_string() }, UploadEvent::PatreonRole(Some(false)));
    assert!(matches!(a, UploadAction::Respond(_)));
    let (_, a) = upload_step(8, UploadStep::AwaitPatreon { name: "beep".to_string() }, UploadEvent::PatreonRole(Some(true)));
    assert!(matches!(a, UploadAction::LookForAttachment));
}

#[test]
fn upload_by_reply() {
    let (s, a) = upload_step(8, UploadStep::AwaitAttachment { name: "beep".to_string() }, UploadEvent::Attachment(None));
    assert_eq!(respond_text(&a), "Please now upload an audio file under 1MB in size (larger files will be automatically trimmed):");
    let (_, a) = upload_step(8, UploadStep::AwaitReply { name: "beep".to_string() }, UploadEvent::Reply(None));
    assert_eq!(respond_text(&a), "Upload timed out. Please redo the command");
    let (_, a) = upload_step(8, UploadStep::AwaitReply { name: "beep".to_string() }, UploadEvent::Reply(Some(None)));
    assert_eq!(respond_text(&a), "Please upload 1 attachment following your upload command. Aborted");
    let (s2, a) = upload_step(8, s, UploadEvent::Reply(Some(Some("u".to_string()))));
    assert!(matches!(&a, UploadAction::CreateSound { url, .. } if url == "u"));
    let (_, a) = upload_step(8, s2, UploadEvent::Created(false));
    assert_eq!(respond_text(&a), "Sound failed to upload.");
    let (s, a) = upload_step(8, UploadStep::Finished, UploadEvent::Created(true));
    assert!(matches!(s, UploadStep::Finished) && matches!(a, UploadAction::Nothing));
}

#[test]
fn deleting() {
    let own = sound("a", 1, true, 10, Some(5));
    let others_here = sound("b", 2, true, 10, Some(6));
    let elsewhere = sound("c", 3, true, 11, Some(6));
    assert_eq!(delete_outcome(None, 5, 10, false), DeleteOutcome::NotFound);
    assert_eq!(delete_outcome(Some(&elsewhere), 5, 10, true), DeleteOutcome::OutsideGuild);
    assert_eq!(delete_outcome(Some(&own), 5, 99, false), DeleteOutcome::Delete);
    assert_eq!(delete_outcome(Some(&others_here), 5, 10, false), DeleteOutcome::NotPermitted);
    assert_eq!(delete_outcome(Some(&others_here), 5, 10, true), DeleteOutcome::Delete);
    assert_eq!(delete_reply(DeleteOutcome::NotFound), "Sound could not be found by that name.");
    assert_eq!(delete_reply(DeleteOutcome::OutsideGuild), "You can only delete sounds from this guild or that you have uploaded.");
    assert_eq!(delete_reply(DeleteOutcome::Delete), "Sound has been deleted");
    assert_eq!(delete_reply(DeleteOutcome::NotPermitted), "Only server admins can delete sounds uploaded by other users.");
}

#[test]
fn visibility() {
    let mut s = sound("a", 1, true, 10, Some(5));
    assert_eq!(toggle_visibility(&mut s, 5), VisibilityOutcome::MadePrivate);
    assert!(!s.public);
    assert_eq!(toggle_visibility(&mut s, 5), VisibilityOutcome::MadePublic);
    assert!(s.public);
    assert_eq!(toggle_visibility(&mut s, 6), VisibilityOutcome::NotOwner);
    assert!(s.public);
    assert_eq!(visibility_reply(VisibilityOutcome::MadePrivate), "Sound has been set to private 🔒");
    assert_eq!(visibility_reply(VisibilityOutcome::MadePublic), "Sound has been set to public 🔓");
    assert_eq!(visibility_reply(VisibilityOutcome::NotFound), "Sound could not be found by that name.");
    assert_eq!(visibility_reply(VisibilityOutcome::NotOwner), "You can only change the visibility of sounds you have uploaded. Use `?list me` to view your sounds");
}

#[test]
fn pager_buttons() {
    let pager = SoundPager::new(0, 0, ListContext::User);
    assert_eq!(pager.to_custom_id(), r#"{"nonce":0,"page":0,"context":"User"}"#);
    let row = pager.create_action_row(2);
    assert_eq!(row.len(), 5);
    assert!(row[0].disabled && row[1].disabled && !row[3].disabled && !row[4].disabled);
    assert_eq!(row[1].custom_id, r#"{"nonce":1,"page":0,"context":"User"}"#);
    assert_eq!(row[2].custom_id, "pid");
    assert_eq!(row[2].label, "Page 1");
    assert_eq!(row[2].style, ButtonStyle::Success);
    assert_eq!(row[3].custom_id, r#"{"nonce":2,"page":1,"context":"User"}"#);
    assert_eq!(row[4].custom_id, r#"{"nonce":3,"page":2,"context":"User"}"#);
    assert_eq!(row[0].label, "⏪");
    assert_eq!(row[1].label, "◀️");
    assert_eq!(row[3].label, "▶️");
    assert_eq!(row[4].label, "⏩");
    let last = SoundPager::new(2, 2, ListContext::Guild).create_action_row(2);
    assert!(!last[0].disabled && last[3].disabled && last[4].disabled);
    assert_eq!(last[1].custom_id, r#"{"nonce":1,"page":1,"context":"Guild"}"#);
    assert_eq!(last[2].label, "Page 3");
    assert_eq!(max_page(0), 0);
    assert_eq!(max_page(25), 1);
    assert_eq!(max_page(74), 2);
    assert_eq!(ListContext::User.title(), "Your sounds");
    assert_eq!(ListContext::Guild.title(), "Server sounds");
}

#[test]
fn pager_embed() {
    let pager = SoundPager::new(0, 1, ListContext::Guild);
    let sounds = vec![sound("beep", 4, true, 1, None), sound("boop", 5, false, 1, None)];
    let e = pager.embed(&sounds, 30);
    assert_eq!(e.color, 0x00e0f3);
    assert_eq!(e.title, "Server sounds");
    assert_eq!(e.description, "**30** sounds:");
    assert_eq!(e.fields.len(), 2);
    assert_eq!(e.fields[0].name, "beep");
    assert_eq!(e.fields[0].value, "ID: `4`\n*Public*");
    assert_eq!(e.fields[1].value, "ID: `5`\n*Private*");
    assert!(e.fields[1].inline);
}

#[test]
fn search_results_fit_a_message() {
    let results: Vec<Sound> = (0..30).map(|i| sound(&format!("s{}", i), i, true, 1, None)).collect();
    let e = format_search_results(&results);
    assert_eq!(e.title, "Public sounds matching filter:");
    assert_eq!(e.fields.len(), 25);
    assert_eq!(e.fields[0].name, "s0");
    assert_eq!(e.fields[0].value, "ID: 0");

    // long names: each takes 600 + len("ID: n") bytes, so three fit in 1970
    let long: Vec<Sound> = (0..5).map(|i| sound(&"x".repeat(600), i, true, 1, None)).collect();
    let e = format_search_results(&long);
    assert_eq!(e.fields.len(), 3);

    // once the budget is exceeded, later short names are dropped too
    let mut mixed = vec![sound(&"y".repeat(1960), 1, true, 1, None), sound("short", 2, true, 1, None)];
    mixed.push(sound("z", 3, true, 1, None));
    let e = format_search_results(&mixed);
    assert_eq!(e.fields.len(), 1);
    assert_eq!(e.fields[0].value, "ID: 1");
    let e = format_search_results(&vec![]);
    assert_eq!(e.fields.len(), 0);
}

#[test]
fn queue_and_soundboard() {
    let terms = present_terms(vec![Some("a".to_string()), None, Some("b".to_string())]);
    assert_eq!(terms, vec!["a", "b"]);
    let results = vec![
        vec![sound("a", 1, true, 1, None), sound("a2", 9, true, 1, None)],
        vec![],
        vec![sound("b", 2, true, 1, None)],
        vec![sound("a again", 1, true, 1, None)],
    ];
    let queue = first_results(&results);
    assert_eq!(queue.iter().map(|s| s.id).collect::<Vec<_>>(), vec![1, 2, 1]);
    assert_eq!(queue_reply(queue.len()), "Queued 3 sounds!");
    let board = soundboard_sounds(&results);
    assert_eq!(board.iter().map(|s| s.id).collect::<Vec<_>>(), vec![1, 2]);
    let many: Vec<Sound> = (0..12).map(|i| sound(&format!("n{}", i), 100 + i, true, 1, None)).collect();
    let rows = soundboard_rows(&many);
    assert_eq!(rows.iter().map(|r| r.len()).collect::<Vec<_>>(), vec![5, 5, 2]);
    assert_eq!(rows[2][1].label, "n11");
    assert_eq!(rows[2][1].custom_id, "111");
    assert_eq!(rows[0][0].style, ButtonStyle::Primary);
    assert!(soundboard_rows(&vec![]).is_empty());
    let choices = autocomplete_choices(&many);
    assert_eq!(choices.len(), 12);
    assert_eq!(choices[3].name, "n3");
    assert_eq!(choices[3].value, "103");
}

#[test]
fn settings_replies() {
    assert_eq!(volume_reply(Some(300), 44), "Volume changed to 300%");
    assert_eq!(volume_reply(None, 80), "Current server volume: 80%. Change the volume with `/volume <new volume>`");
    let s = sound("beep", 7, true, 1, None);
    assert_eq!(greet_set_reply(Some(&s)), "Greet sound has been set to beep (ID 7)");
    assert_eq!(greet_set_reply(None), "Could not find a sound by that name.");
    assert_eq!(greet_unset_reply(), "Greet sound has been unset");
    assert_eq!(greet_toggle_reply(false), "Greet sounds have been disabled in this server");
    assert_eq!(greet_toggle_reply(true), "Greet sounds have been enable in this server");
}

#[test]
fn info_texts() {
    assert!(help_description().starts_with("__Info Commands__\n`/help` `/info`"));
    assert!(help_description().ends_with("`/soundboard` - Create a soundboard"));
    let info = info_description(42);
    assert!(info.starts_with("Invite me: https://discord.com/api/oauth2/authorize?client_id=42&permissions=3165184"));
}

#[test]
fn pager_buttons_told_apart() {
    let pager = SoundPager::new(1, 2, ListContext::User);
    assert!(is_pager_button(&pager.to_custom_id()));
    assert!(!is_pager_button("42"));
    assert!(!is_pager_button(""));
}

#[test]
fn taken_name_never_stored() {
    let (s, _) = upload_step(8, UploadStep::Start, UploadEvent::Begin { name: "beep".to_string() });
    let (s, a) = upload_step(8, s, UploadEvent::NamedCount(2));
    assert_eq!(respond_text(&a), "You are already using that name. Please choose a unique name for your upload.");
    let (s, a) = upload_step(8, s, UploadEvent::SoundCount(0));
    assert!(matches!(a, UploadAction::Nothing));
    let (s, a) = upload_step(8, s, UploadEvent::Attachment(Some("https://f".to_string())));
    assert!(matches!(a, UploadAction::Nothing));
    assert!(matches!(s, UploadStep::Finished));
}
