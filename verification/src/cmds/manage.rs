//! Managing sounds: uploading, deleting, and making a sound public or private.
use vstd::prelude::*;
use vstd::string::*;
use crate::models::sound::Sound;
use crate::text::{all_digits, byte_len, byte_len_capped, decimal, is_ascii_digit, push_decimal};

verus! {

/// Whether every character of `s` is an ASCII digit (so the empty name is numeric).
pub fn is_numeric(s: &str) -> (res: bool)
    ensures
        res == all_digits(s@),
{
    let n = s.unicode_len();
    let mut i: usize = 0;
    while i < n
        invariant
            i <= n,
            n == s@.len(),
            forall|j: int| 0 <= j < i ==> #[trigger] is_ascii_digit(s@[j]),
        decreases n - i,
    {
        let c = s.get_char(i);
        if !('0' <= c && c <= '9') {
            assert(!is_ascii_digit(s@[i as int]));
            return false;
        }
        i = i + 1;
    }
    true
}

/// How a requested upload name fares.
#[derive(Debug, PartialEq, Eq, Structural, Clone, Copy)]
pub enum UploadNameCheck {
    /// The name can be used.
    Accepted,
    /// The name is empty or longer than 20 bytes.
    BadLength,
    /// The name has only digits, so it would read as a sound ID.
    Numeric,
}

/// Names of 1 to 20 bytes that are not all digits are accepted.
pub open spec fn upload_name_check_spec(name: Seq<char>) -> UploadNameCheck {
    if name.len() == 0 || byte_len(name) > 20 {
        UploadNameCheck::BadLength
    } else if all_digits(name) {
        UploadNameCheck::Numeric
    } else {
        UploadNameCheck::Accepted
    }
}

/// Checks a requested upload name (see [`upload_name_check_spec`]).
pub fn check_upload_name(name: &str) -> (res: UploadNameCheck)
    ensures
        res == upload_name_check_spec(name@),
{
    if name.is_empty() || byte_len_capped(name, 20) > 20 {
        UploadNameCheck::BadLength
    } else if is_numeric(name) {
        UploadNameCheck::Numeric
    } else {
        UploadNameCheck::Accepted
    }
}

/// A name is refused for its length exactly when it is empty or over 20
/// bytes; a name of the right length is refused as numeric exactly when every
/// one of its characters is an ASCII digit, and accepted as soon as one
/// character, anywhere in it, is not.
pub proof fn lemma_upload_name_rules(name: Seq<char>)
    ensures
        name.len() == 0 || byte_len(name) > 20 ==> upload_name_check_spec(name) == UploadNameCheck::BadLength,
        name.len() > 0 && byte_len(name) <= 20 && (exists|k: int| 0 <= k < name.len() && !('0' <= #[trigger] name[k] && name[k] <= '9'))
            ==> upload_name_check_spec(name) == UploadNameCheck::Accepted,
        name.len() > 0 && byte_len(name) <= 20 && (forall|k: int| 0 <= k < name.len() ==> '0' <= #[trigger] name[k] && name[k] <= '9')
            ==> upload_name_check_spec(name) == UploadNameCheck::Numeric,
{
    if exists|k: int| 0 <= k < name.len() && !('0' <= #[trigger] name[k] && name[k] <= '9') {
        let k = choose|k: int| 0 <= k < name.len() && !('0' <= #[trigger] name[k] && name[k] <= '9');
        assert(!is_ascii_digit(name[k]));
    }
    if forall|k: int| 0 <= k < name.len() ==> '0' <= #[trigger] name[k] && name[k] <= '9' {
        assert forall|k: int| 0 <= k < name.len() implies #[trigger] is_ascii_digit(name[k]) by {
            assert('0' <= name[k] && name[k] <= '9');
        }
    }
}

pub open spec fn upload_usage_text() -> Seq<char> {
    "Usage: `/upload <name>`. Please ensure the name provided is less than 20 characters in length"@
}

pub open spec fn upload_numeric_text() -> Seq<char> {
    "Please ensure the sound name contains a non-numerical character"@
}

pub open spec fn upload_name_taken_text() -> Seq<char> {
    "You are already using that name. Please choose a unique name for your upload."@
}

pub open spec fn upload_prompt_text() -> Seq<char> {
    "Please now upload an audio file under 1MB in size (larger files will be automatically trimmed):"@
}

pub open spec fn upload_no_attachment_text() -> Seq<char> {
    "Please upload 1 attachment following your upload command. Aborted"@
}

pub open spec fn upload_timeout_text() -> Seq<char> {
    "Upload timed out. Please redo the command"@
}

pub open spec fn upload_done_text() -> Seq<char> {
    "Sound has been uploaded"@
}

pub open spec fn upload_failed_text() -> Seq<char> {
    "Sound failed to upload."@
}

/// The reply to a user who has reached the sound limit `max_sounds`.
pub open spec fn upload_limit_text(max_sounds: u32) -> Seq<char> {
    "You have reached the maximum number of sounds ("@ + decimal(max_sounds as nat)
        + "). Either delete some with `/delete` or join our Patreon for unlimited uploads at **https://patreon.com/jellywx**"@
}

fn upload_limit_reply(max_sounds: u32) -> (res: String)
    ensures
        res@ == upload_limit_text(max_sounds),
{
    let mut s = String::from_str("You have reached the maximum number of sounds (");
    push_decimal(&mut s, max_sounds as u64);
    s.append("). Either delete some with `/delete` or join our Patreon for unlimited uploads at **https://patreon.com/jellywx**");
    s
}

/// Where an upload stands.
pub enum UploadStep {
    /// Nothing has been looked at.
    Start,
    /// Waiting for how many of the user's sounds already have this name.
    AwaitNamedCount { name: String },
    /// Waiting for how many sounds the user has.
    AwaitSoundCount { name: String },
    /// Waiting to learn whether the user holds the Patreon role.
    AwaitPatreon { name: String },
    /// Waiting for the attachment of the invoking message, if any.
    AwaitAttachment { name: String },
    /// Waiting for the user's reply with a file.
    AwaitReply { name: String },
    /// Waiting for the sound to be stored.
    AwaitCreate,
    /// The upload is over.
    Finished,
}

/// What the outside world reports back during an upload.
pub enum UploadEvent {
    /// The command was invoked with this name (empty where none was given).
    Begin { name: String },
    /// How many of the user's sounds have the requested name.
    NamedCount(u32),
    /// How many sounds the user has.
    SoundCount(u32),
    /// Whether the user holds the Patreon role, or `None` where the user is not
    /// a member of the Patreon server.
    PatreonRole(Option<bool>),
    /// The address of the first attachment of the invoking message, if any.
    Attachment(Option<String>),
    /// The user's reply: `None` where none came in time, otherwise the address
    /// of its first attachment, if any.
    Reply(Option<Option<String>>),
    /// Whether storing the sound succeeded.
    Created(bool),
}

/// What the outside world is to do next during an upload.
pub enum UploadAction {
    Nothing,
    /// Answer the command.
    Respond(String),
    /// Send a follow-up message.
    Followup(String),
    /// Count the user's sounds with this name.
    CountNamedSounds { name: String },
    /// Count the user's sounds.
    CountUserSounds,
    /// Look up whether the user holds the Patreon role.
    CheckPatreonRole,
    /// Look for an attachment on the invoking message.
    LookForAttachment,
    /// Answer the command with this text, then wait for the user's reply.
    PromptForFile(String),
    /// Transcode the file at `url` and store it as the user's sound `name`.
    CreateSound { name: String, url: String },
}

/// The action answers the command with `text`.
pub open spec fn responds(action: UploadAction, text: Seq<char>) -> bool {
    action matches UploadAction::Respond(t) && t@ == text
}

/// The action sends a follow-up message with `text`.
pub open spec fn follows_up(action: UploadAction, text: Seq<char>) -> bool {
    action matches UploadAction::Followup(t) && t@ == text
}

/// The action prompts for a file with `text`.
pub open spec fn prompts(action: UploadAction, text: Seq<char>) -> bool {
    action matches UploadAction::PromptForFile(t) && t@ == text
}

/// The action counts the user's sounds called `name`.
pub open spec fn counts_named(action: UploadAction, name: Seq<char>) -> bool {
    action matches UploadAction::CountNamedSounds { name: n } && n@ == name
}

/// A step that carries a name carries an accepted one.
pub open spec fn upload_step_ok(step: UploadStep) -> bool {
    match step {
        UploadStep::AwaitNamedCount { name } => upload_name_check_spec(name@) == UploadNameCheck::Accepted,
        UploadStep::AwaitSoundCount { name } => upload_name_check_spec(name@) == UploadNameCheck::Accepted,
        UploadStep::AwaitPatreon { name } => upload_name_check_spec(name@) == UploadNameCheck::Accepted,
        UploadStep::AwaitAttachment { name } => upload_name_check_spec(name@) == UploadNameCheck::Accepted,
        UploadStep::AwaitReply { name } => upload_name_check_spec(name@) == UploadNameCheck::Accepted,
        _ => true,
    }
}

/// The upload command, one report at a time: the name must be accepted
/// ([`upload_name_check_spec`]) and not yet used by the user; a user with
/// `max_sounds` sounds or more needs the Patreon role; the file is the
/// invoking message's attachment, or else the attachment of the user's reply
/// to a prompt; then the sound is stored and the user told how that went.
/// A report that does not fit the step changes nothing.
pub open spec fn upload_transition(
    max_sounds: u32,
    step: UploadStep,
    event: UploadEvent,
    next: UploadStep,
    action: UploadAction,
) -> bool {
    match (step, event) {
        (UploadStep::Start, UploadEvent::Begin { name }) => match upload_name_check_spec(name@) {
            UploadNameCheck::BadLength => next is Finished && responds(action, upload_usage_text()),
            UploadNameCheck::Numeric => next is Finished && responds(action, upload_numeric_text()),
            UploadNameCheck::Accepted => next == (UploadStep::AwaitNamedCount { name })
                && counts_named(action, name@),
        },
        (UploadStep::AwaitNamedCount { name }, UploadEvent::NamedCount(count)) => if count > 0 {
            next is Finished && responds(action, upload_name_taken_text())
        } else {
            next == (UploadStep::AwaitSoundCount { name }) && action is CountUserSounds
        },
        (UploadStep::AwaitSoundCount { name }, UploadEvent::SoundCount(count)) => if count >= max_sounds {
            next == (UploadStep::AwaitPatreon { name }) && action is CheckPatreonRole
        } else {
            next == (UploadStep::AwaitAttachment { name }) && action is LookForAttachment
        },
        (UploadStep::AwaitPatreon { name }, UploadEvent::PatreonRole(role)) => if role == Some(true) {
            next == (UploadStep::AwaitAttachment { name }) && action is LookForAttachment
        } else {
            next is Finished && responds(action, upload_limit_text(max_sounds))
        },
        (UploadStep::AwaitAttachment { name }, UploadEvent::Attachment(url)) => match url {
            Some(u) => next is AwaitCreate && action == (UploadAction::CreateSound { name, url: u }),
            None => next == (UploadStep::AwaitReply { name })
                && prompts(action, upload_prompt_text()),
        },
        (UploadStep::AwaitReply { name }, UploadEvent::Reply(reply)) => match reply {
            None => next is Finished && follows_up(action, upload_timeout_text()),
            Some(None) => next is Finished && follows_up(action, upload_no_attachment_text()),
            Some(Some(u)) => next is AwaitCreate && action == (UploadAction::CreateSound { name, url: u }),
        },
        (UploadStep::AwaitCreate, UploadEvent::Created(ok)) => next is Finished && if ok {
            follows_up(action, upload_done_text())
        } else {
            follows_up(action, upload_failed_text())
        },
        _ => next == step && action is Nothing,
    }
}

/// Takes one step of an upload (see [`upload_transition`]). A sound is only
/// ever stored under an accepted name.
pub fn upload_step(max_sounds: u32, step: UploadStep, event: UploadEvent) -> (res: (UploadStep, UploadAction))
    requires
        upload_step_ok(step),
    ensures
        upload_transition(max_sounds, step, event, res.0, res.1),
        upload_step_ok(res.0),
        res.1 matches UploadAction::CreateSound { name, .. } ==> upload_name_check_spec(name@) == UploadNameCheck::Accepted,
{
    match (step, event) {
        (UploadStep::Start, UploadEvent::Begin { name }) => match check_upload_name(name.as_str()) {
            UploadNameCheck::BadLength => (UploadStep::Finished, UploadAction::Respond(String::from_str(
                "Usage: `/upload <name>`. Please ensure the name provided is less than 20 characters in length"))),
            UploadNameCheck::Numeric => (UploadStep::Finished, UploadAction::Respond(String::from_str(
                "Please ensure the sound name contains a non-numerical character"))),
            UploadNameCheck::Accepted => {
                let n = name.clone();
                (UploadStep::AwaitNamedCount { name }, UploadAction::CountNamedSounds { name: n })
            },
        },
        (UploadStep::AwaitNamedCount { name }, UploadEvent::NamedCount(count)) => if count > 0 {
            (UploadStep::Finished, UploadAction::Respond(String::from_str(
                "You are already using that name. Please choose a unique name for your upload.")))
        } else {
            (UploadStep::AwaitSoundCount { name }, UploadAction::CountUserSounds)
        },
        (UploadStep::AwaitSoundCount { name }, UploadEvent::SoundCount(count)) => if count >= max_sounds {
            (UploadStep::AwaitPatreon { name }, UploadAction::CheckPatreonRole)
        } else {
            (UploadStep::AwaitAttachment { name }, UploadAction::LookForAttachment)
        },
        (UploadStep::AwaitPatreon { name }, UploadEvent::PatreonRole(role)) => {
            let permitted = match role {
                Some(r) => r,
                None => false,
            };
            if permitted {
                (UploadStep::AwaitAttachment { name }, UploadAction::LookForAttachment)
            } else {
                (UploadStep::Finished, UploadAction::Respond(upload_limit_reply(max_sounds)))
            }
        },
        (UploadStep::AwaitAttachment { name }, UploadEvent::Attachment(url)) => match url {
            Some(u) => (UploadStep::AwaitCreate, UploadAction::CreateSound { name, url: u }),
            None => (UploadStep::AwaitReply { name }, UploadAction::PromptForFile(String::from_str(
                "Please now upload an audio file under 1MB in size (larger files will be automatically trimmed):"))),
        },
        (UploadStep::AwaitReply { name }, UploadEvent::Reply(reply)) => match reply {
            None => (UploadStep::Finished, UploadAction::Followup(String::from_str(
                "Upload timed out. Please redo the command"))),
            Some(None) => (UploadStep::Finished, UploadAction::Followup(String::from_str(
                "Please upload 1 attachment following your upload command. Aborted"))),
            Some(Some(u)) => (UploadStep::AwaitCreate, UploadAction::CreateSound { name, url: u }),
        },
        (UploadStep::AwaitCreate, UploadEvent::Created(ok)) => if ok {
            (UploadStep::Finished, UploadAction::Followup(String::from_str("Sound has been uploaded")))
        } else {
            (UploadStep::Finished, UploadAction::Followup(String::from_str("Sound failed to upload.")))
        },
        (step, _) => (step, UploadAction::Nothing),
    }
}


/// A run of an upload: `steps[0]` is the start, and each report `events[i]`
/// takes `steps[i]` to `steps[i + 1]` with the action `actions[i]`
/// ([`upload_transition`]).
pub open spec fn upload_run(
    max_sounds: u32,
    steps: Seq<UploadStep>,
    events: Seq<UploadEvent>,
    actions: Seq<UploadAction>,
) -> bool {
    &&& steps.len() == events.len() + 1
    &&& actions.len() == events.len()
    &&& steps[0] is Start
    &&& forall|i: int| 0 <= i < events.len()
        ==> upload_transition(max_sounds, #[trigger] steps[i], events[i], steps[i + 1], actions[i])
}

/// The name that a step past the name check carries.
pub open spec fn checked_name(step: UploadStep) -> Option<String> {
    match step {
        UploadStep::AwaitSoundCount { name } => Some(name),
        UploadStep::AwaitPatreon { name } => Some(name),
        UploadStep::AwaitAttachment { name } => Some(name),
        UploadStep::AwaitReply { name } => Some(name),
        _ => None,
    }
}

/// Before step `i` of the run, the user's sounds called `name` were counted
/// and none was found.
pub open spec fn name_found_free(steps: Seq<UploadStep>, events: Seq<UploadEvent>, i: int, name: String) -> bool {
    exists|j: int| 0 <= j < i
        && #[trigger] steps[j] == (UploadStep::AwaitNamedCount { name })
        && events[j] == UploadEvent::NamedCount(0)
}

proof fn lemma_checked_names(
    max_sounds: u32,
    steps: Seq<UploadStep>,
    events: Seq<UploadEvent>,
    actions: Seq<UploadAction>,
    i: int,
)
    requires
        upload_run(max_sounds, steps, events, actions),
        0 <= i < steps.len(),
    ensures
        checked_name(steps[i]) matches Some(n) ==> name_found_free(steps, events, i, n),
    decreases i,
{
    if i > 0 {
        let k = i - 1;
        lemma_checked_names(max_sounds, steps, events, actions, k);
        assert(upload_transition(max_sounds, steps[k], events[k], steps[k + 1], actions[k]));
        if let Some(n) = checked_name(steps[i]) {
            match (steps[k], events[k]) {
                (UploadStep::AwaitNamedCount { name }, UploadEvent::NamedCount(count)) => {
                    assert(count == 0);
                    assert(name == n);
                    assert(steps[k] == (UploadStep::AwaitNamedCount { name: n }));
                    assert(events[k] == UploadEvent::NamedCount(0));
                },
                _ => {
                    assert(checked_name(steps[k]) == Some(n));
                    let j = choose|j: int| 0 <= j < k
                        && #[trigger] steps[j] == (UploadStep::AwaitNamedCount { name: n })
                        && events[j] == UploadEvent::NamedCount(0);
                    assert(steps[j] == (UploadStep::AwaitNamedCount { name: n }));
                },
            }
        }
    }
}

/// No upload is stored unless the user's sounds with its name were counted
/// first and none was found: in any run of an upload, an action that stores
/// a sound under `name` comes after the report of a zero count at the step
/// that asked for the sounds called `name`.
pub proof fn lemma_upload_needs_free_name(
    max_sounds: u32,
    steps: Seq<UploadStep>,
    events: Seq<UploadEvent>,
    actions: Seq<UploadAction>,
    k: int,
)
    requires
        upload_run(max_sounds, steps, events, actions),
        0 <= k < actions.len(),
    ensures
        actions[k] matches UploadAction::CreateSound { name, .. } ==> name_found_free(steps, events, k, name),
{
    lemma_checked_names(max_sounds, steps, events, actions, k);
    assert(upload_transition(max_sounds, steps[k], events[k], steps[k + 1], actions[k]));
}

/// What a delete request comes to.
#[derive(Debug, PartialEq, Eq, Structural, Clone, Copy)]
pub enum DeleteOutcome {
    /// No sound matched the request.
    NotFound,
    /// The sound is neither from this server nor the user's.
    OutsideGuild,
    /// The sound is deleted.
    Delete,
    /// The sound is another user's and the user may not manage the server.
    NotPermitted,
}

/// Who may delete a sound: only sounds of this server or of the user are in
/// reach; of those, the user's own sounds, and any of them for a member who may
/// manage the server.
pub open spec fn delete_outcome_spec(sound: Option<Sound>, user_id: u64, guild_id: u64, has_perms: bool) -> DeleteOutcome {
    match sound {
        None => DeleteOutcome::NotFound,
        Some(s) => if s.uploader_id != Some(user_id) && s.server_id != guild_id {
            DeleteOutcome::OutsideGuild
        } else if s.uploader_id == Some(user_id) || has_perms {
            DeleteOutcome::Delete
        } else {
            DeleteOutcome::NotPermitted
        },
    }
}

/// Who may delete what: a missing sound is reported as such; the user's own
/// sound is always deleted, whatever the server and permissions; someone
/// else's sound from another server is refused as outside the server; someone
/// else's sound from this server is deleted exactly for a member who may
/// manage the server.
pub proof fn lemma_delete_rules(s: Sound, user_id: u64, guild_id: u64, has_perms: bool)
    ensures
        delete_outcome_spec(None, user_id, guild_id, has_perms) == DeleteOutcome::NotFound,
        s.uploader_id == Some(user_id) ==> delete_outcome_spec(Some(s), user_id, guild_id, has_perms) == DeleteOutcome::Delete,
        s.uploader_id != Some(user_id) && s.server_id != guild_id
            ==> delete_outcome_spec(Some(s), user_id, guild_id, has_perms) == DeleteOutcome::OutsideGuild,
        s.uploader_id != Some(user_id) && s.server_id == guild_id && has_perms
            ==> delete_outcome_spec(Some(s), user_id, guild_id, has_perms) == DeleteOutcome::Delete,
        s.uploader_id != Some(user_id) && s.server_id == guild_id && !has_perms
            ==> delete_outcome_spec(Some(s), user_id, guild_id, has_perms) == DeleteOutcome::NotPermitted,
{
}

/// Decides a delete request for the first sound that matched (see
/// [`delete_outcome_spec`]); `has_perms` is whether the user may manage the server.
pub fn delete_outcome(sound: Option<&Sound>, user_id: u64, guild_id: u64, has_perms: bool) -> (res: DeleteOutcome)
    ensures
        res == delete_outcome_spec(match sound { Some(s) => Some(*s), None => None }, user_id, guild_id, has_perms),
{
    match sound {
        None => DeleteOutcome::NotFound,
        Some(s) => {
            let own = match s.uploader_id {
                Some(u) => u == user_id,
                None => false,
            };
            if !own && s.server_id != guild_id {
                DeleteOutcome::OutsideGuild
            } else if own || has_perms {
                DeleteOutcome::Delete
            } else {
                DeleteOutcome::NotPermitted
            }
        },
    }
}

/// The reply to a delete request.
pub open spec fn delete_reply_text(outcome: DeleteOutcome) -> Seq<char> {
    match outcome {
        DeleteOutcome::NotFound => "Sound could not be found by that name."@,
        DeleteOutcome::OutsideGuild => "You can only delete sounds from this guild or that you have uploaded."@,
        DeleteOutcome::Delete => "Sound has been deleted"@,
        DeleteOutcome::NotPermitted => "Only server admins can delete sounds uploaded by other users."@,
    }
}

/// See [`delete_reply_text`].
pub fn delete_reply(outcome: DeleteOutcome) -> (res: String)
    ensures
        res@ == delete_reply_text(outcome),
{
    match outcome {
        DeleteOutcome::NotFound => String::from_str("Sound could not be found by that name."),
        DeleteOutcome::OutsideGuild => String::from_str("You can only delete sounds from this guild or that you have uploaded."),
        DeleteOutcome::Delete => String::from_str("Sound has been deleted"),
        DeleteOutcome::NotPermitted => String::from_str("Only server admins can delete sounds uploaded by other users."),
    }
}

/// What a request to change a sound's visibility comes to.
#[derive(Debug, PartialEq, Eq, Structural, Clone, Copy)]
pub enum VisibilityOutcome {
    /// No sound matched the request.
    NotFound,
    /// The sound is not the user's; nothing changed.
    NotOwner,
    /// The sound was public and is now private.
    MadePrivate,
    /// The sound was private and is now public.
    MadePublic,
}

/// The sound after `user_id` asks to change its visibility: the user's own
/// sound has its public flag flipped, any other is unchanged.
pub open spec fn toggled(s: Sound, user_id: u64) -> Sound {
    if s.uploader_id == Some(user_id) {
        Sound { public: !s.public, ..s }
    } else {
        s
    }
}

/// Flips whether the user's sound is public; a sound that is not the user's is
/// left as it is (see [`toggled`]).
pub fn toggle_visibility(sound: &mut Sound, user_id: u64) -> (res: VisibilityOutcome)
    ensures
        *final(sound) == toggled(*old(sound), user_id),
        res == (if old(sound).uploader_id != Some(user_id) {
            VisibilityOutcome::NotOwner
        } else if old(sound).public {
            VisibilityOutcome::MadePrivate
        } else {
            VisibilityOutcome::MadePublic
        }),
{
    let own = match sound.uploader_id {
        Some(u) => u == user_id,
        None => false,
    };
    if !own {
        VisibilityOutcome::NotOwner
    } else if sound.public {
        sound.public = false;
        VisibilityOutcome::MadePrivate
    } else {
        sound.public = true;
        VisibilityOutcome::MadePublic
    }
}

/// The reply to a visibility request.
pub open spec fn visibility_reply_text(outcome: VisibilityOutcome) -> Seq<char> {
    match outcome {
        VisibilityOutcome::NotFound => "Sound could not be found by that name."@,
        VisibilityOutcome::NotOwner => "You can only change the visibility of sounds you have uploaded. Use `?list me` to view your sounds"@,
        VisibilityOutcome::MadePrivate => "Sound has been set to private 🔒"@,
        VisibilityOutcome::MadePublic => "Sound has been set to public 🔓"@,
    }
}

/// See [`visibility_reply_text`].
pub fn visibility_reply(outcome: VisibilityOutcome) -> (res: String)
    ensures
        res@ == visibility_reply_text(outcome),
{
    match outcome {
        VisibilityOutcome::NotFound => String::from_str("Sound could not be found by that name."),
        VisibilityOutcome::NotOwner => String::from_str(
            "You can only change the visibility of sounds you have uploaded. Use `?list me` to view your sounds"),
        VisibilityOutcome::MadePrivate => String::from_str("Sound has been set to private 🔒"),
        VisibilityOutcome::MadePublic => String::from_str("Sound has been set to public 🔓"),
    }
}

/// Asking twice to change a sound's visibility leaves it as it was.
pub proof fn lemma_toggle_twice(s: Sound, user_id: u64)
    ensures
        toggled(toggled(s, user_id), user_id) == s,
{
}

} // verus!
