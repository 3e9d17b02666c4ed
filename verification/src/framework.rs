//! The command framework: argument schemas and their patterns, parsed
//! arguments, commands and who may run them, and the registry that matches
//! message text to commands.
use vstd::prelude::*;
use vstd::string::*;
use vstd::utf8::*;
use crate::keyed::{distinct_keys, find_key, key_seq, keyed_get, keyed_insert, keyed_map, lemma_keyed_map_domain, lemma_keyed_map_value};
use crate::text::{decimal, decimal_string, replace_all, replace_all_str};
use crate::pattern::{
    capture_text, compile_regex, option_texts, regex_captures, regex_compiles, regex_group, regex_group_names,
    regex_matches, regex_names, CompiledRegex,
};

verus! {

/// Who may run a command.
#[derive(Debug, PartialEq, Eq, Structural, Clone, Copy)]
pub enum PermissionLevel {
    Unrestricted,
    Managed,
    Restricted,
}

/// Where a command may be invoked from: slash commands, text messages, or both.
#[derive(Debug, PartialEq, Eq, Structural, Clone, Copy)]
pub enum CommandKind {
    Slash,
    Both,
    Text,
}

/// The type of a command option, as Discord's application commands know it.
#[derive(Debug, PartialEq, Eq, Structural, Clone, Copy)]
pub enum ArgKind {
    SubCommand,
    SubCommandGroup,
    String,
    Integer,
    Boolean,
    User,
    Channel,
    Role,
    Mentionable,
    Number,
    Attachment,
    Unknown,
}

/// One argument of a command.
pub struct Arg {
    pub name: String,
    pub description: String,
    pub kind: ArgKind,
    pub required: bool,
}

/// The pattern that matches an argument of kind `kind` called `name` in message text.
pub open spec fn arg_regex(name: Seq<char>, kind: ArgKind) -> Seq<char> {
    match kind {
        ArgKind::String => "(?P<"@ + name + ">.+?)"@,
        ArgKind::Integer => "(?P<"@ + name + ">\\d+)"@,
        ArgKind::Boolean => "(?P<"@ + name + ">"@ + name + ")?"@,
        ArgKind::User => "<(@|@!)(?P<"@ + name + ">\\d+)>"@,
        ArgKind::Channel => "<#(?P<"@ + name + ">\\d+)>"@,
        ArgKind::Role => "<@&(?P<"@ + name + ">\\d+)>"@,
        ArgKind::Mentionable => "<(?P<"@ + name + "_pref>@|@!|@&|#)(?P<"@ + name + ">\\d+)>"@,
        _ => Seq::<char>::empty(),
    }
}

impl Arg {
    /// The pattern that matches this argument in message text.
    pub fn to_regex(&self) -> (res: String)
        ensures
            res@ == arg_regex(self.name@, self.kind),
    {
        let name = self.name.as_str();
        match self.kind {
            ArgKind::String => {
                let mut s = String::from_str("(?P<");
                s.append(name);
                s.append(">.+?)");
                s
            },
            ArgKind::Integer => {
                let mut s = String::from_str("(?P<");
                s.append(name);
                s.append(">\\d+)");
                s
            },
            ArgKind::Boolean => {
                let mut s = String::from_str("(?P<");
                s.append(name);
                s.append(">");
                s.append(name);
                s.append(")?");
                s
            },
            ArgKind::User => {
                let mut s = String::from_str("<(@|@!)(?P<");
                s.append(name);
                s.append(">\\d+)>");
                s
            },
            ArgKind::Channel => {
                let mut s = String::from_str("<#(?P<");
                s.append(name);
                s.append(">\\d+)>");
                s
            },
            ArgKind::Role => {
                let mut s = String::from_str("<@&(?P<");
                s.append(name);
                s.append(">\\d+)>");
                s
            },
            ArgKind::Mentionable => {
                let mut s = String::from_str("<(?P<");
                s.append(name);
                s.append("_pref>@|@!|@&|#)(?P<");
                s.append(name);
                s.append(">\\d+)>");
                s
            },
            _ => String::new(),
        }
    }
}

/// `parts` joined with `sep` between neighbours.
pub open spec fn join_with(parts: Seq<Seq<char>>, sep: Seq<char>) -> Seq<char>
    decreases parts.len(),
{
    if parts.len() == 0 {
        Seq::<char>::empty()
    } else if parts.len() == 1 {
        parts[0]
    } else {
        join_with(parts.drop_last(), sep) + sep + parts.last()
    }
}

/// The patterns of the arguments of a schema, in order.
pub open spec fn arg_regexes(schema: Seq<Arg>) -> Seq<Seq<char>> {
    Seq::new(schema.len(), |i: int| arg_regex(schema[i].name@, schema[i].kind))
}

/// The pattern that a whole argument string must match: the argument patterns
/// joined by optional white space, anchored at the end.
pub open spec fn args_pattern(schema: Seq<Arg>) -> Seq<char> {
    join_with(arg_regexes(schema), "\\s*"@) + "$"@
}

/// Builds [`args_pattern`] for a schema.
pub fn args_pattern_string(schema: &Vec<Arg>) -> (res: String)
    ensures
        res@ == args_pattern(schema@),
{
    let ghost parts = arg_regexes(schema@);
    let mut res = String::new();
    let mut i: usize = 0;
    while i < schema.len()
        invariant
            i <= schema@.len(),
            parts == arg_regexes(schema@),
            res@ == join_with(parts.take(i as int), "\\s*"@),
        decreases schema@.len() - i,
    {
        let r = schema[i].to_regex();
        assert(parts.take(i + 1).drop_last() =~= parts.take(i as int));
        if i > 0 {
            res.append("\\s*");
        } else {
            assert(res@ =~= Seq::<char>::empty());
        }
        res.append(r.as_str());
        i = i + 1;
        assert(parts.take(i as int).last() == r@);
    }
    assert(parts.take(schema@.len() as int) =~= parts);
    res.append("$");
    res
}

/// Arguments parsed for a command invocation, by name.
pub struct Args {
    entries: Vec<(String, String)>,
}

impl View for Args {
    type V = Map<Seq<char>, Seq<char>>;

    closed spec fn view(&self) -> Map<Seq<char>, Seq<char>> {
        keyed_map(self.entries@).map_values(|v: String| v@)
    }
}

/// The map that a list of `(name, value)` texts stands for: later pairs win.
pub open spec fn text_map(p: Seq<(Seq<char>, Seq<char>)>) -> Map<Seq<char>, Seq<char>>
    decreases p.len(),
{
    if p.len() == 0 {
        Map::empty()
    } else {
        text_map(p.drop_last()).insert(p.last().0, p.last().1)
    }
}

/// The texts of a list of string pairs.
pub open spec fn pair_views(e: Seq<(String, String)>) -> Seq<(Seq<char>, Seq<char>)> {
    Seq::new(e.len(), |i: int| (e[i].0@, e[i].1@))
}

proof fn lemma_pair_views_map(e: Seq<(String, String)>)
    ensures
        keyed_map(e).map_values(|v: String| v@) =~= text_map(pair_views(e)),
    decreases e.len(),
{
    if e.len() > 0 {
        let t = e.drop_last();
        lemma_pair_views_map(t);
        assert(pair_views(e).drop_last() =~= pair_views(t));
    }
}

impl Args {
    /// The arguments' table has one entry per name.
    pub closed spec fn wf(&self) -> bool {
        distinct_keys(self.entries@)
    }

    /// No arguments.
    pub fn new() -> (res: Args)
        ensures
            res.wf(),
            res@ == Map::<Seq<char>, Seq<char>>::empty(),
    {
        let res = Args { entries: Vec::new() };
        assert(res@ =~= Map::<Seq<char>, Seq<char>>::empty());
        res
    }

    /// Sets the argument `name` to `value`, replacing any earlier value.
    pub fn insert(&mut self, name: String, value: String)
        requires
            old(self).wf(),
        ensures
            final(self).wf(),
            final(self)@ == old(self)@.insert(name@, value@),
    {
        let ghost nv = name@;
        let ghost vv = value@;
        keyed_insert(&mut self.entries, name, value);
        assert(self@ =~= old(self)@.insert(nv, vv));
    }

    /// The value of the argument `name`, if it was given.
    pub fn named(&self, name: &str) -> (res: Option<&String>)
        requires
            self.wf(),
        ensures
            res is Some <==> self@.contains_key(name@),
            res is Some ==> res->0@ == self@[name@],
    {
        keyed_get(&self.entries, name)
    }

    /// The arguments that a list of matched groups gives, in order; a later
    /// group of the same name replaces an earlier one.
    pub fn from_groups(groups: &Vec<(String, String)>) -> (res: Args)
        ensures
            res.wf(),
            res@ == text_map(pair_views(groups@)),
    {
        let mut args = Args::new();
        let mut i: usize = 0;
        while i < groups.len()
            invariant
                i <= groups@.len(),
                args.wf(),
                args@ == text_map(pair_views(groups@.take(i as int))),
            decreases groups@.len() - i,
        {
            assert(pair_views(groups@.take(i + 1)).drop_last() =~= pair_views(groups@.take(i as int)));
            let name = groups[i].0.clone();
            let value = groups[i].1.clone();
            args.insert(name, value);
            i = i + 1;
        }
        assert(groups@.take(groups@.len() as int) =~= groups@);
        proof {
            lemma_pair_views_map(groups@);
        }
        args
    }

    /// Parses the argument text of a message against a command's argument
    /// schema: the text is matched with [`args_pattern`], and each named group
    /// that took part in the match becomes an argument ([`parsed_args`]).
    /// Where the pattern does not compile there are no arguments to give, and
    /// the result is `None`.
    pub fn from(message: &str, arg_schema: &Vec<Arg>) -> (res: Option<Args>)
        ensures
            res is Some <==> regex_compiles(args_pattern(arg_schema@), false, false),
            res matches Some(a) ==> a.wf() && a@ == parsed_args(arg_schema@, message@),
    {
        let pattern = args_pattern_string(arg_schema);
        let re = match compile_regex(pattern.as_str(), false, false) {
            Some(re) => re,
            None => return None,
        };
        let ghost p = args_pattern(arg_schema@);
        let names = regex_group_names(&re);
        let ghost nv = option_texts(names@);
        let mut groups: Vec<(String, String)> = Vec::new();
        match regex_captures(&re, message) {
            Some(caps) => {
                let mut i: usize = 0;
                while i < names.len()
                    invariant
                        i <= names@.len(),
                        nv == option_texts(names@),
                        caps.pattern() == p,
                        !caps.is_case_insensitive(),
                        !caps.dot_matches_line_breaks(),
                        caps.text() == message@,
                        pair_views(groups@) == matched_groups(nv.take(i as int), p, message@),
                    decreases names@.len() - i,
                {
                    assert(nv.take(i + 1).drop_last() =~= nv.take(i as int));
                    assert(nv.take(i + 1).last() == nv[i as int]);
                    let ghost before = groups@;
                    match &names[i] {
                        Some(name) => {
                            match capture_text(&caps, name.as_str()) {
                                Some(text) => {
                                    groups.push((name.clone(), text));
                                    assert(pair_views(groups@) =~= pair_views(before).push((name@, text@)));
                                },
                                None => {},
                            }
                        },
                        None => {},
                    }
                    i = i + 1;
                }
                assert(nv.take(names@.len() as int) =~= nv);
            },
            None => {
                assert(pair_views(groups@) =~= Seq::<(Seq<char>, Seq<char>)>::empty());
            },
        }
        Some(Args::from_groups(&groups))
    }
}

/// The `(name, text)` pairs of the named groups of the first match of `pattern`
/// (compiled with both flags off) in `text`, taking `names` as the regex's
/// group names in order; groups that took part in no match are left out.
pub open spec fn matched_groups(names: Seq<Option<Seq<char>>>, pattern: Seq<char>, text: Seq<char>) -> Seq<(Seq<char>, Seq<char>)>
    decreases names.len(),
{
    if names.len() == 0 {
        Seq::empty()
    } else {
        let rest = matched_groups(names.drop_last(), pattern, text);
        match names.last() {
            Some(n) => match regex_group(pattern, false, false, text, n) {
                Some(t) => rest.push((n, t)),
                None => rest,
            },
            None => rest,
        }
    }
}

/// The arguments that the text `text` gives for the schema `schema`: where
/// [`args_pattern`] matches, every named group that took part in the match,
/// with the text it captured; where it does not, none.
pub open spec fn parsed_args(schema: Seq<Arg>, text: Seq<char>) -> Map<Seq<char>, Seq<char>> {
    let p = args_pattern(schema);
    if regex_matches(p, false, false, text) {
        text_map(matched_groups(regex_names(p, false, false), p, text))
    } else {
        Map::empty()
    }
}


/// A command as the framework knows it: its names (the first is its own name,
/// the rest aliases), help text, where it may be invoked from, who may run it,
/// and its arguments.
pub struct Command {
    pub names: Vec<String>,
    pub desc: String,
    pub examples: Vec<String>,
    pub group: String,
    pub kind: CommandKind,
    pub required_permissions: PermissionLevel,
    pub args: Vec<Arg>,
}

/// Whether a member may run a command that asks for `level`: anyone may run an
/// unrestricted command and a server manager may run any command; otherwise a
/// managed command needs the server's allowed role (any member where no role
/// is set, and no one where the server's settings could not be read), and a
/// restricted command is refused.
pub open spec fn permission_granted(
    level: PermissionLevel,
    manages_guild: bool,
    allowed_role: Result<Option<u64>, ()>,
    guild_id: u64,
    member_roles: Seq<u64>,
) -> bool {
    ||| level == PermissionLevel::Unrestricted
    ||| manages_guild
    ||| level == PermissionLevel::Managed && match allowed_role {
        Ok(None) => true,
        Ok(Some(role)) => role == guild_id || member_roles.contains(role),
        Err(_) => false,
    }
}

fn contains_u64(v: &Vec<u64>, x: u64) -> (res: bool)
    ensures
        res == v@.contains(x),
{
    let mut i: usize = 0;
    while i < v.len()
        invariant
            i <= v@.len(),
            forall|j: int| 0 <= j < i ==> v@[j] != x,
        decreases v@.len() - i,
    {
        if v[i] == x {
            assert(v@[i as int] == x);
            return true;
        }
        i = i + 1;
    }
    false
}

impl Command {
    /// Whether a member may run this command (see [`permission_granted`]):
    /// `manages_guild` is whether the member may manage the server,
    /// `allowed_role` the server's role setting (`Err` where it could not be
    /// read) and `member_roles` the member's roles.
    pub fn check_permissions(
        &self,
        manages_guild: bool,
        allowed_role: Result<Option<u64>, ()>,
        guild_id: u64,
        member_roles: &Vec<u64>,
    ) -> (res: bool)
        ensures
            res == permission_granted(self.required_permissions, manages_guild, allowed_role, guild_id, member_roles@),
    {
        if self.required_permissions == PermissionLevel::Unrestricted {
            true
        } else if manages_guild {
            true
        } else if self.required_permissions == PermissionLevel::Managed {
            match allowed_role {
                Ok(None) => true,
                Ok(Some(role)) => {
                    role == guild_id || contains_u64(member_roles, role)
                },
                Err(_) => false,
            }
        } else {
            false
        }
    }
}

/// For a managed command whose server names an allowed role: a member who
/// holds that role (at any position of their roles), or a server where the
/// role is the server's own (everyone's) role, is granted; a member who
/// neither manages the server nor holds the role is refused. With no role set
/// anyone is granted; where the setting could not be read only a manager is.
pub proof fn lemma_managed_role_rule(manages_guild: bool, role: u64, guild_id: u64, member_roles: Seq<u64>)
    ensures
        forall|k: int| 0 <= k < member_roles.len() && #[trigger] member_roles[k] == role
            ==> permission_granted(PermissionLevel::Managed, manages_guild, Ok(Some(role)), guild_id, member_roles),
        role == guild_id ==> permission_granted(PermissionLevel::Managed, manages_guild, Ok(Some(role)), guild_id, member_roles),
        !manages_guild && role != guild_id && (forall|k: int| 0 <= k < member_roles.len() ==> #[trigger] member_roles[k] != role)
            ==> !permission_granted(PermissionLevel::Managed, manages_guild, Ok(Some(role)), guild_id, member_roles),
        permission_granted(PermissionLevel::Managed, manages_guild, Ok(None), guild_id, member_roles),
        permission_granted(PermissionLevel::Managed, manages_guild, Err(()), guild_id, member_roles) <==> manages_guild,
{
    assert forall|k: int| 0 <= k < member_roles.len() && #[trigger] member_roles[k] == role
        implies permission_granted(PermissionLevel::Managed, manages_guild, Ok(Some(role)), guild_id, member_roles) by {
        assert(member_roles.contains(role));
    }
}

/// Anyone may run an unrestricted command, a server manager may run any
/// command, and only a server manager may run a restricted one.
pub proof fn lemma_permission_levels(
    level: PermissionLevel,
    manages_guild: bool,
    allowed_role: Result<Option<u64>, ()>,
    guild_id: u64,
    member_roles: Seq<u64>,
)
    ensures
        level == PermissionLevel::Unrestricted ==> permission_granted(level, manages_guild, allowed_role, guild_id, member_roles),
        manages_guild ==> permission_granted(level, manages_guild, allowed_role, guild_id, member_roles),
        level == PermissionLevel::Restricted ==> (permission_granted(level, manages_guild, allowed_role, guild_id, member_roles) <==> manages_guild),
{
}

/// The reply to a member who may not run a command that asks for `level`
/// (`slash`: the command came as a slash command rather than a message).
pub open spec fn permission_denied_text(level: PermissionLevel, slash: bool) -> Option<Seq<char>> {
    match level {
        PermissionLevel::Managed => if slash {
            Some("You must either be an Admin or have a role specified by `/roles` to do this command"@)
        } else {
            Some("You must either be an Admin or have a role specified in `?roles` to do this command"@)
        },
        PermissionLevel::Restricted => Some("You must be an Admin to do this command"@),
        PermissionLevel::Unrestricted => None,
    }
}

/// See [`permission_denied_text`].
pub fn permission_denied_reply(level: PermissionLevel, slash: bool) -> (res: Option<String>)
    ensures
        match permission_denied_text(level, slash) {
            Some(t) => res matches Some(r) && r@ == t,
            None => res is None,
        },
{
    match level {
        PermissionLevel::Managed => if slash {
            Some(String::from_str("You must either be an Admin or have a role specified by `/roles` to do this command"))
        } else {
            Some(String::from_str("You must either be an Admin or have a role specified in `?roles` to do this command"))
        },
        PermissionLevel::Restricted => Some(String::from_str("You must be an Admin to do this command")),
        PermissionLevel::Unrestricted => None,
    }
}

/// The value of a slash-command option, as the library reads it.
pub enum OptionValue {
    Bool(bool),
    /// A number, by its decimal text.
    Number(String),
    Text(String),
    /// Any other kind of value.
    Other,
}

/// The argument text that an option called `name` with value `v` gives: a true
/// flag gives its own name, a false flag nothing, a number its text, a string
/// itself, and anything else nothing.
pub open spec fn option_text(name: Seq<char>, v: OptionValue) -> Seq<char> {
    match v {
        OptionValue::Bool(b) => if b { name } else { Seq::<char>::empty() },
        OptionValue::Number(t) => t@,
        OptionValue::Text(t) => t@,
        OptionValue::Other => Seq::<char>::empty(),
    }
}

/// The `(name, text)` pairs that the options with a value give, in order.
pub open spec fn option_pairs(options: Seq<(String, Option<OptionValue>)>) -> Seq<(Seq<char>, Seq<char>)>
    decreases options.len(),
{
    if options.len() == 0 {
        Seq::empty()
    } else {
        let rest = option_pairs(options.drop_last());
        match options.last().1 {
            Some(v) => rest.push((options.last().0@, option_text(options.last().0@, v))),
            None => rest,
        }
    }
}

/// The arguments that the options of a slash command give: every option with a
/// value, as [`option_text`] renders it.
pub fn interaction_args(options: &Vec<(String, Option<OptionValue>)>) -> (res: Args)
    ensures
        res.wf(),
        res@ == text_map(option_pairs(options@)),
{
    let mut args = Args::new();
    let mut i: usize = 0;
    while i < options.len()
        invariant
            i <= options@.len(),
            args.wf(),
            args@ == text_map(option_pairs(options@.take(i as int))),
        decreases options@.len() - i,
    {
        assert(options@.take(i + 1).drop_last() =~= options@.take(i as int));
        let name = &options[i].0;
        match &options[i].1 {
            Some(v) => {
                let text = match v {
                    OptionValue::Bool(b) => if *b { name.clone() } else { String::new() },
                    OptionValue::Number(t) => t.clone(),
                    OptionValue::Text(t) => t.clone(),
                    OptionValue::Other => String::new(),
                };
                assert(text@ == option_text(name@, *v));
                assert(options@.take(i + 1).last() == options@[i as int]);
                let ghost p_old = option_pairs(options@.take(i as int));
                let ghost item = (name@, text@);
                assert(option_pairs(options@.take(i + 1)) == p_old.push(item));
                assert(p_old.push(item).drop_last() =~= p_old);
                assert(text_map(p_old.push(item)) == text_map(p_old).insert(item.0, item.1));
                args.insert(name.clone(), text);
            },
            None => {
                assert(options@.take(i + 1).last() == options@[i as int]);
            },
        }
        i = i + 1;
    }
    assert(options@.take(options@.len() as int) =~= options@);
    args
}


/// The texts of a list of strings.
pub open spec fn name_views(names: Seq<String>) -> Seq<Seq<char>> {
    names.map_values(|s: String| s@)
}

/// The byte length that `str::len` reports for a string with these characters.
pub open spec fn reported_len(s: Seq<char>) -> usize {
    encode_utf8(s).len() as usize
}

/// `x` placed into `s` after the leading run of names at least as long as it.
pub open spec fn insert_longest_first(s: Seq<Seq<char>>, x: Seq<char>) -> Seq<Seq<char>>
    decreases s.len(),
{
    if s.len() == 0 {
        seq![x]
    } else if reported_len(s[0]) >= reported_len(x) {
        seq![s[0]] + insert_longest_first(s.drop_first(), x)
    } else {
        seq![x] + s
    }
}

/// `s` ordered longest first; names of equal length keep their order.
pub open spec fn longest_first(s: Seq<Seq<char>>) -> Seq<Seq<char>>
    decreases s.len(),
{
    if s.len() == 0 {
        Seq::empty()
    } else {
        insert_longest_first(longest_first(s.drop_last()), s.last())
    }
}

proof fn lemma_insert_longest_first_at(s: Seq<Seq<char>>, x: Seq<char>, p: int)
    requires
        0 <= p <= s.len(),
        forall|j: int| 0 <= j < p ==> reported_len(#[trigger] s[j]) >= reported_len(x),
        p == s.len() || reported_len(s[p]) < reported_len(x),
    ensures
        insert_longest_first(s, x) =~= s.insert(p, x),
    decreases s.len(),
{
    if s.len() > 0 && p > 0 {
        let t = s.drop_first();
        assert forall|j: int| 0 <= j < p - 1 implies reported_len(#[trigger] t[j]) >= reported_len(x) by {
            assert(t[j] == s[j + 1]);
        }
        lemma_insert_longest_first_at(t, x, p - 1);
        assert(s[0] == s[0]);
        assert(reported_len(s[0]) >= reported_len(x));
    }
}

proof fn lemma_insert_longest_first(s: Seq<Seq<char>>, x: Seq<char>)
    requires
        forall|i: int, j: int| 0 <= i < j < s.len() ==> reported_len(#[trigger] s[i]) >= reported_len(#[trigger] s[j]),
    ensures
        insert_longest_first(s, x).to_multiset() =~= s.to_multiset().insert(x),
        forall|i: int, j: int| 0 <= i < j < insert_longest_first(s, x).len()
            ==> reported_len(#[trigger] insert_longest_first(s, x)[i]) >= reported_len(#[trigger] insert_longest_first(s, x)[j]),
        forall|i: int| 0 <= i < insert_longest_first(s, x).len() ==> (#[trigger] insert_longest_first(s, x)[i] == x || s.contains(insert_longest_first(s, x)[i])),
    decreases s.len(),
{
    broadcast use vstd::seq_lib::group_to_multiset_ensures;
    let r = insert_longest_first(s, x);
    if s.len() == 0 {
        assert(r =~= seq![x]);
        assert(seq![x] =~= Seq::<Seq<char>>::empty().push(x));
    } else if reported_len(s[0]) >= reported_len(x) {
        let t = s.drop_first();
        lemma_insert_longest_first(t, x);
        let rt = insert_longest_first(t, x);
        assert(s =~= seq![s[0]] + t);
        vstd::seq_lib::lemma_multiset_commutative(seq![s[0]], t);
        vstd::seq_lib::lemma_multiset_commutative(seq![s[0]], rt);
        assert forall|i: int| 0 <= i < r.len() implies (#[trigger] r[i] == x || s.contains(r[i])) by {
            if i > 0 {
                assert(r[i] == rt[i - 1]);
                if rt[i - 1] != x {
                    let w = choose|w: int| 0 <= w < t.len() && t[w] == rt[i - 1];
                    assert(s[w + 1] == t[w]);
                }
            } else {
                assert(s[0] == r[0]);
            }
        }
        assert forall|i: int, j: int| 0 <= i < j < r.len() implies reported_len(#[trigger] r[i]) >= reported_len(#[trigger] r[j]) by {
            if i == 0 {
                assert(r[j] == rt[j - 1]);
                if rt[j - 1] == x {
                } else {
                    let w = choose|w: int| 0 <= w < t.len() && t[w] == rt[j - 1];
                    assert(t[w] == s[w + 1]);
                }
            } else {
                assert(r[i] == rt[i - 1] && r[j] == rt[j - 1]);
            }
        }
    } else {
        assert(r =~= seq![x] + s);
        vstd::seq_lib::lemma_multiset_commutative(seq![x], s);
        assert(seq![x] =~= Seq::<Seq<char>>::empty().push(x));
        assert forall|i: int| 0 <= i < r.len() implies (#[trigger] r[i] == x || s.contains(r[i])) by {
            if i > 0 {
                assert(r[i] == s[i - 1]);
            }
        }
        assert forall|i: int, j: int| 0 <= i < j < r.len() implies reported_len(#[trigger] r[i]) >= reported_len(#[trigger] r[j]) by {
            if i == 0 {
                assert(r[j] == s[j - 1]);
                if j - 1 > 0 {
                    assert(reported_len(s[0]) >= reported_len(s[j - 1]));
                }
            } else {
                assert(r[i] == s[i - 1] && r[j] == s[j - 1]);
            }
        }
    }
}

/// Ordering names longest first keeps every name as often as it was there,
/// and no name comes before a longer one.
pub proof fn lemma_longest_first(s: Seq<Seq<char>>)
    ensures
        longest_first(s).to_multiset() =~= s.to_multiset(),
        forall|i: int, j: int| 0 <= i < j < longest_first(s).len()
            ==> reported_len(#[trigger] longest_first(s)[i]) >= reported_len(#[trigger] longest_first(s)[j]),
    decreases s.len(),
{
    broadcast use vstd::seq_lib::group_to_multiset_ensures;
    if s.len() > 0 {
        lemma_longest_first(s.drop_last());
        lemma_insert_longest_first(longest_first(s.drop_last()), s.last());
        assert(s =~= s.drop_last().push(s.last()));
    }
}

/// The pattern that a message must match to invoke a command: a mention of the
/// bot or a prefix of one to five non-space characters, then one of the
/// command names, then nothing or white space and the arguments.
pub open spec fn matcher_template() -> Seq<char> {
    "^(?:(?:<@ID>\\s*)|(?:<@!ID>\\s*)|(?P<prefix>\\S{1,5}?))(?P<cmd>COMMANDS)(?:$|\\s+(?P<args>.*))$"@
}

/// The command pattern for these names (in this order) and this bot: the names,
/// joined by `|`, stand for `COMMANDS`, and then the bot's ID for each `ID`.
pub open spec fn matcher_pattern(names: Seq<Seq<char>>, client_id: u64) -> Seq<char> {
    replace_all(
        replace_all(matcher_template(), "COMMANDS"@, join_with(names, "|"@)),
        "ID"@,
        decimal(client_id as nat),
    )
}

/// A command as a message invokes it: the prefix, command name and argument
/// text that the command pattern captured.
pub struct CommandMatch {
    pub prefix: Option<String>,
    pub cmd: Option<String>,
    pub args: Option<String>,
}

/// The lower-case form of `s` that `str::to_lowercase` gives.
pub uninterp spec fn lowercase(s: Seq<char>) -> Seq<char>;

/// `str::to_lowercase`. The contract claims only that the result is a function
/// of the text ([`lowercase`]).
#[verifier::external_body]
pub(crate) fn to_lowercase(s: &str) -> (res: String)
    ensures
        res@ == lowercase(s@),
{
    s.to_lowercase()
}

/// Joins `parts` with `sep` between neighbours.
pub fn join_strings(parts: &Vec<String>, sep: &str) -> (res: String)
    ensures
        res@ == join_with(name_views(parts@), sep@),
{
    let ghost v = name_views(parts@);
    let mut res = String::new();
    let mut i: usize = 0;
    while i < parts.len()
        invariant
            i <= parts@.len(),
            v == name_views(parts@),
            res@ == join_with(v.take(i as int), sep@),
        decreases parts@.len() - i,
    {
        assert(v.take(i + 1).drop_last() =~= v.take(i as int));
        if i > 0 {
            res.append(sep);
        } else {
            assert(res@ =~= Seq::<char>::empty());
        }
        res.append(parts[i].as_str());
        i = i + 1;
        assert(v.take(i as int).last() == parts@[i - 1]@);
    }
    assert(v.take(parts@.len() as int) =~= v);
    res
}

/// The command registry: every command added, the set of commands by their
/// own names, the table from every name and alias to a command, and the
/// compiled command pattern once built.
pub struct RegexFramework {
    registered: Vec<Command>,
    distinct: Vec<usize>,
    commands: Vec<(String, usize)>,
    command_matcher: Option<CompiledRegex>,
    default_prefix: String,
    client_id: u64,
    ignore_bots: bool,
    case_insensitive: bool,
}

impl RegexFramework {
    /// The registry's tables agree with each other.
    pub closed spec fn wf(&self) -> bool {
        &&& distinct_keys(self.commands@)
        &&& forall|n: Seq<char>| #[trigger] keyed_map(self.commands@).contains_key(n) ==> keyed_map(self.commands@)[n] < self.registered@.len()
        &&& forall|i: int| 0 <= i < self.distinct@.len() ==> #[trigger] self.distinct@[i] < self.registered@.len()
        &&& forall|k: int| 0 <= k < self.registered@.len() ==> (#[trigger] self.registered@[k]).names@.len() > 0
        &&& forall|i: int, j: int| 0 <= i < j < self.distinct@.len()
            ==> self.registered@[#[trigger] self.distinct@[i] as int].names@[0]@
                != self.registered@[#[trigger] self.distinct@[j] as int].names@[0]@
    }

    /// Every command added, in order.
    pub closed spec fn registered(&self) -> Seq<Command> {
        self.registered@
    }

    /// The commands kept as distinct by their own (first) name, as positions in
    /// [`Self::registered`]: the first command added under each name.
    pub closed spec fn command_set(&self) -> Seq<int> {
        self.distinct@.map_values(|i: usize| i as int)
    }

    /// For every command name and alias, the position in [`Self::registered`]
    /// of the command it leads to: the last one added under that name.
    pub closed spec fn lookup(&self) -> Map<Seq<char>, int> {
        keyed_map(self.commands@).map_values(|i: usize| i as int)
    }

    /// The names in the lookup table, in the order they were first added.
    pub closed spec fn name_order(&self) -> Seq<Seq<char>> {
        key_seq(self.commands@)
    }

    /// The bot's user ID.
    pub closed spec fn client(&self) -> u64 {
        self.client_id
    }

    /// The configured default prefix.
    pub closed spec fn prefix(&self) -> Seq<char> {
        self.default_prefix@
    }

    /// Whether messages from bots are meant to be ignored.
    pub closed spec fn ignores_bots(&self) -> bool {
        self.ignore_bots
    }

    /// Whether command names match in any letter case.
    pub closed spec fn is_case_insensitive(&self) -> bool {
        self.case_insensitive
    }

    /// The compiled command pattern, if any: the pattern and its two flags
    /// (any letter case; `.` matching line breaks).
    pub closed spec fn matcher(&self) -> Option<(Seq<char>, bool, bool)> {
        match self.command_matcher {
            Some(re) => Some((re.pattern(), re.is_case_insensitive(), re.dot_matches_line_breaks())),
            None => None,
        }
    }

    /// An empty registry for the bot with user ID `client_id`: no prefix,
    /// ignoring bots, case-insensitive, no pattern compiled yet.
    pub fn new(client_id: u64) -> (res: RegexFramework)
        ensures
            res.wf(),
            res.registered().len() == 0,
            res.command_set().len() == 0,
            res.lookup() == Map::<Seq<char>, int>::empty(),
            res.name_order().len() == 0,
            res.client() == client_id,
            res.prefix() == Seq::<char>::empty(),
            res.ignores_bots(),
            res.is_case_insensitive(),
            res.matcher() is None,
    {
        let res = RegexFramework {
            registered: Vec::new(),
            distinct: Vec::new(),
            commands: Vec::new(),
            command_matcher: None,
            default_prefix: String::new(),
            client_id,
            ignore_bots: true,
            case_insensitive: true,
        };
        assert(res.lookup() =~= Map::<Seq<char>, int>::empty());
        assert(res.name_order() =~= Seq::<Seq<char>>::empty());
        res
    }

    /// Sets whether command names match in any letter case.
    pub fn case_insensitive(self, case_insensitive: bool) -> (res: RegexFramework)
        requires
            self.wf(),
        ensures
            res.wf(),
            res.is_case_insensitive() == case_insensitive,
            res.registered() == self.registered(),
            res.command_set() == self.command_set(),
            res.lookup() == self.lookup(),
            res.name_order() == self.name_order(),
            res.client() == self.client(),
            res.prefix() == self.prefix(),
            res.ignores_bots() == self.ignores_bots(),
            res.matcher() == self.matcher(),
    {
        RegexFramework { case_insensitive, ..self }
    }

    /// Sets the default prefix.
    pub fn default_prefix(self, new_prefix: &str) -> (res: RegexFramework)
        requires
            self.wf(),
        ensures
            res.wf(),
            res.prefix() == new_prefix@,
            res.is_case_insensitive() == self.is_case_insensitive(),
            res.registered() == self.registered(),
            res.command_set() == self.command_set(),
            res.lookup() == self.lookup(),
            res.name_order() == self.name_order(),
            res.client() == self.client(),
            res.ignores_bots() == self.ignores_bots(),
            res.matcher() == self.matcher(),
    {
        RegexFramework { default_prefix: String::from_str(new_prefix), ..self }
    }

    /// Sets whether messages from bots are meant to be ignored.
    pub fn ignore_bots(self, ignore_bots: bool) -> (res: RegexFramework)
        requires
            self.wf(),
        ensures
            res.wf(),
            res.ignores_bots() == ignore_bots,
            res.prefix() == self.prefix(),
            res.is_case_insensitive() == self.is_case_insensitive(),
            res.registered() == self.registered(),
            res.command_set() == self.command_set(),
            res.lookup() == self.lookup(),
            res.name_order() == self.name_order(),
            res.client() == self.client(),
            res.matcher() == self.matcher(),
    {
        RegexFramework { ignore_bots, ..self }
    }

    /// Adds a command. The command joins the set of distinct commands unless
    /// one with the same own name is there already (that one stays), and each
    /// of its names and aliases now leads to it.
    pub fn add_command(self, command: Command) -> (res: RegexFramework)
        requires
            self.wf(),
            command.names@.len() > 0,
        ensures
            res.wf(),
            res.registered() == self.registered().push(command),
            res.command_set() == (if exists|k: int| 0 <= k < self.command_set().len()
                && #[trigger] self.registered()[self.command_set()[k]].names@[0]@ == command.names@[0]@ {
                self.command_set()
            } else {
                self.command_set().push(self.registered().len() as int)
            }),
            forall|n: Seq<char>| #[trigger] res.lookup().contains_key(n)
                <==> (self.lookup().contains_key(n) || name_views(command.names@).contains(n)),
            forall|n: Seq<char>| name_views(command.names@).contains(n)
                ==> #[trigger] res.lookup()[n] == self.registered().len(),
            forall|n: Seq<char>| !name_views(command.names@).contains(n) && self.lookup().contains_key(n)
                ==> #[trigger] res.lookup()[n] == self.lookup()[n],
            res.client() == self.client(),
            res.prefix() == self.prefix(),
            res.ignores_bots() == self.ignores_bots(),
            res.is_case_insensitive() == self.is_case_insensitive(),
            res.matcher() == self.matcher(),
    {
        let ghost s0 = self;
        let RegexFramework {
            mut registered,
            mut distinct,
            mut commands,
            command_matcher,
            default_prefix,
            client_id,
            ignore_bots,
            case_insensitive,
        } = self;
        let idx = registered.len();
        let ghost old_set = distinct@;
        let ghost names = name_views(command.names@);

        let mut found = false;
        let mut k: usize = 0;
        while k < distinct.len()
            invariant
                k <= distinct@.len(),
                distinct@ == old_set,
                command.names@.len() > 0,
                forall|i: int| 0 <= i < distinct@.len() ==> #[trigger] distinct@[i] < registered@.len(),
                forall|j: int| 0 <= j < registered@.len() ==> (#[trigger] registered@[j]).names@.len() > 0,
                found <==> exists|j: int| 0 <= j < k && #[trigger] registered@[distinct@[j] as int].names@[0]@ == command.names@[0]@,
            decreases distinct@.len() - k,
        {
            let d = distinct[k];
            if registered[d].names[0] == command.names[0] {
                found = true;
            }
            k = k + 1;
        }
        if !found {
            distinct.push(idx);
        }

        let ghost old_map = keyed_map(commands@);
        let mut j: usize = 0;
        while j < command.names.len()
            invariant
                j <= command.names@.len(),
                names == name_views(command.names@),
                idx == registered@.len(),
                distinct_keys(commands@),
                forall|n: Seq<char>| #[trigger] keyed_map(commands@).contains_key(n)
                    <==> (old_map.contains_key(n) || names.take(j as int).contains(n)),
                forall|n: Seq<char>| names.take(j as int).contains(n) ==> #[trigger] keyed_map(commands@)[n] == idx,
                forall|n: Seq<char>| !names.take(j as int).contains(n) && old_map.contains_key(n)
                    ==> #[trigger] keyed_map(commands@)[n] == old_map[n],
            decreases command.names@.len() - j,
        {
            let name = command.names[j].clone();
            proof {
                let t0 = names.take(j as int);
                let t1 = names.take(j + 1);
                assert(t1 =~= t0.push(name@));
                assert forall|n: Seq<char>| t1.contains(n) <==> (t0.contains(n) || n == name@) by {
                    if t1.contains(n) {
                        let w = choose|w: int| 0 <= w < t1.len() && #[trigger] t1[w] == n;
                        if w < j {
                            assert(t0[w] == n);
                        }
                    }
                    if t0.contains(n) {
                        let w = choose|w: int| 0 <= w < t0.len() && #[trigger] t0[w] == n;
                        assert(t1[w] == n);
                    }
                    if n == name@ {
                        assert(t1[j as int] == n);
                    }
                }
            }
            keyed_insert(&mut commands, name, idx);
            j = j + 1;
        }
        assert(names.take(command.names@.len() as int) =~= names);
        registered.push(command);
        let res = RegexFramework {
            registered,
            distinct,
            commands,
            command_matcher,
            default_prefix,
            client_id,
            ignore_bots,
            case_insensitive,
        };
        proof {
            let reg = res.registered@;
            assert forall|n: Seq<char>| #[trigger] keyed_map(res.commands@).contains_key(n)
                implies keyed_map(res.commands@)[n] < reg.len() by {
                if !names.contains(n) {
                    assert(old_map.contains_key(n));
                }
            }
            assert forall|i: int| 0 <= i < res.distinct@.len() implies #[trigger] res.distinct@[i] < reg.len() by {
                if i < old_set.len() {
                    assert(res.distinct@[i] == old_set[i]);
                }
            }
            assert forall|q: int| 0 <= q < reg.len() implies (#[trigger] reg[q]).names@.len() > 0 by {
                if q < idx {
                    assert(reg[q] == s0.registered@[q]);
                }
            }
            assert forall|a: int, b: int| 0 <= a < b < res.distinct@.len()
                implies reg[#[trigger] res.distinct@[a] as int].names@[0]@ != reg[#[trigger] res.distinct@[b] as int].names@[0]@ by {
                if b < old_set.len() {
                    assert(res.distinct@[a] == old_set[a] && res.distinct@[b] == old_set[b]);
                    assert(reg[old_set[a] as int] == s0.registered@[old_set[a] as int]);
                    assert(reg[old_set[b] as int] == s0.registered@[old_set[b] as int]);
                } else {
                    assert(res.distinct@[a] == old_set[a]);
                    assert(reg[old_set[a] as int] == s0.registered@[old_set[a] as int]);
                    assert(!found);
                }
            }
            if found {
                let w = choose|w: int| 0 <= w < old_set.len() && #[trigger] s0.registered@[old_set[w] as int].names@[0]@ == command.names@[0]@;
                assert(s0.command_set()[w] == old_set[w] as int);
            } else {
                assert forall|w: int| 0 <= w < s0.command_set().len() implies
                    #[trigger] s0.registered()[s0.command_set()[w]].names@[0]@ != command.names@[0]@ by {
                    assert(s0.command_set()[w] == old_set[w] as int);
                }
            }
            assert(res.command_set() =~= (if found { s0.command_set() } else { s0.command_set().push(idx as int) }));
        }
        res
    }

    /// The position of the command that `name` leads to, if any.
    pub fn command_index(&self, name: &str) -> (res: Option<usize>)
        requires
            self.wf(),
        ensures
            res is Some <==> self.lookup().contains_key(name@),
            res matches Some(i) ==> i == self.lookup()[name@] && i < self.registered().len(),
    {
        match keyed_get(&self.commands, name) {
            Some(i) => Some(*i),
            None => None,
        }
    }

    /// The command at position `i` of [`Self::registered`].
    pub fn command_at(&self, i: usize) -> (res: &Command)
        requires
            self.wf(),
            i < self.registered().len(),
        ensures
            *res == self.registered()[i as int],
    {
        &self.registered[i]
    }

    /// The names of the lookup table ordered longest first, ties in the order
    /// the names were added.
    pub fn names_longest_first(&self) -> (res: Vec<String>)
        ensures
            name_views(res@) == longest_first(self.name_order()),
    {
        let ghost keys = key_seq(self.commands@);
        let mut out: Vec<String> = Vec::new();
        let mut i: usize = 0;
        while i < self.commands.len()
            invariant
                i <= self.commands@.len(),
                keys == key_seq(self.commands@),
                name_views(out@) == longest_first(keys.take(i as int)),
            decreases self.commands@.len() - i,
        {
            let x = self.commands[i].0.clone();
            let xl = x.as_str().len();
            let mut p: usize = 0;
            while p < out.len() && out[p].as_str().len() >= xl
                invariant
                    p <= out@.len(),
                    xl == reported_len(x@),
                    forall|q: int| 0 <= q < p ==> reported_len(#[trigger] name_views(out@)[q]) >= reported_len(x@),
                decreases out@.len() - p,
            {
                p = p + 1;
            }
            proof {
                let v = name_views(out@);
                lemma_insert_longest_first_at(v, x@, p as int);
                assert(keys.take(i + 1).drop_last() =~= keys.take(i as int));
                assert(keys.take(i + 1).last() == x@);
            }
            let ghost before = out@;
            out.insert(p, x);
            assert(name_views(out@) =~= name_views(before).insert(p as int, self.commands@[i as int].0@));
            i = i + 1;
        }
        assert(keys.take(self.commands@.len() as int) =~= keys);
        out
    }

    /// Compiles the command pattern: [`matcher_pattern`] over the names ordered
    /// longest first, in the configured letter case, with `.` matching line
    /// breaks. Where the pattern does not compile there is no framework to
    /// give, and the result is `None`.
    pub fn build(self) -> (res: Option<RegexFramework>)
        requires
            self.wf(),
        ensures
            res is Some <==> regex_compiles(
                matcher_pattern(longest_first(self.name_order()), self.client()),
                self.is_case_insensitive(),
                true,
            ),
            res matches Some(f) ==> {
                &&& f.wf()
                &&& f.matcher() == Some((
                    matcher_pattern(longest_first(self.name_order()), self.client()),
                    self.is_case_insensitive(),
                    true,
                ))
                &&& f.registered() == self.registered()
                &&& f.command_set() == self.command_set()
                &&& f.lookup() == self.lookup()
                &&& f.name_order() == self.name_order()
                &&& f.client() == self.client()
                &&& f.prefix() == self.prefix()
                &&& f.ignores_bots() == self.ignores_bots()
                &&& f.is_case_insensitive() == self.is_case_insensitive()
            },
    {
        let names = self.names_longest_first();
        let joined = join_strings(&names, "|");
        proof {
            reveal_strlit("COMMANDS");
            reveal_strlit("ID");
        }
        let with_names = replace_all_str(
            "^(?:(?:<@ID>\\s*)|(?:<@!ID>\\s*)|(?P<prefix>\\S{1,5}?))(?P<cmd>COMMANDS)(?:$|\\s+(?P<args>.*))$",
            "COMMANDS",
            joined.as_str(),
        );
        let id = decimal_string(self.client_id);
        let pattern = replace_all_str(with_names.as_str(), "ID", id.as_str());
        match compile_regex(pattern.as_str(), self.case_insensitive, true) {
            Some(re) => Some(RegexFramework { command_matcher: Some(re), ..self }),
            None => None,
        }
    }

    /// Matches message text against the compiled command pattern: the prefix,
    /// command name and argument text that its groups `prefix`, `cmd` and
    /// `args` captured. Before [`Self::build`] no text matches.
    pub fn match_command(&self, content: &str) -> (res: Option<CommandMatch>)
        ensures
            match self.matcher() {
                None => res is None,
                Some((p, ci, dot)) => {
                    &&& res is Some <==> regex_matches(p, ci, dot, content@)
                    &&& res matches Some(m) ==> {
                        &&& opt_view(m.prefix) == regex_group(p, ci, dot, content@, "prefix"@)
                        &&& opt_view(m.cmd) == regex_group(p, ci, dot, content@, "cmd"@)
                        &&& opt_view(m.args) == regex_group(p, ci, dot, content@, "args"@)
                    }
                },
            },
    {
        match &self.command_matcher {
            None => None,
            Some(re) => match regex_captures(re, content) {
                None => None,
                Some(caps) => Some(CommandMatch {
                    prefix: capture_text(&caps, "prefix"),
                    cmd: capture_text(&caps, "cmd"),
                    args: capture_text(&caps, "args"),
                }),
            },
        }
    }

    /// The distinct commands, the ones registered as application commands.
    pub fn application_commands(&self) -> (res: Vec<&Command>)
        requires
            self.wf(),
        ensures
            res@.len() == self.command_set().len(),
            forall|i: int| 0 <= i < res@.len() ==> *res@[i] == self.registered()[#[trigger] self.command_set()[i]],
    {
        let mut res: Vec<&Command> = Vec::new();
        let mut i: usize = 0;
        while i < self.distinct.len()
            invariant
                self.wf(),
                i <= self.distinct@.len(),
                res@.len() == i,
                forall|j: int| 0 <= j < i ==> *res@[j] == self.registered@[#[trigger] self.distinct@[j] as int],
            decreases self.distinct@.len() - i,
        {
            res.push(&self.registered[self.distinct[i]]);
            i = i + 1;
        }
        res
    }
}


/// Whether a captured prefix lets a message through: a message without a
/// prefix (it mentioned the bot) always does; otherwise the prefix must be the
/// server's, or `?` where the server's settings could not be read.
pub open spec fn prefix_accepted(prefix: Option<Seq<char>>, guild_prefix: Option<Seq<char>>) -> bool {
    match prefix {
        None => true,
        Some(p) => match guild_prefix {
            Some(g) => p == g,
            None => p == "?"@,
        },
    }
}

fn prefix_matches(prefix: &Option<String>, guild_prefix: &Option<String>) -> (res: bool)
    ensures
        res == prefix_accepted(
            match prefix { Some(p) => Some(p@), None => None },
            match guild_prefix { Some(g) => Some(g@), None => None },
        ),
{
    match prefix {
        None => true,
        Some(p) => match guild_prefix {
            Some(g) => *p == *g,
            None => {
                let q = String::from_str("?");
                *p == q
            },
        },
    }
}

/// A message that names a prefix goes on exactly when that prefix is the
/// server's; where the server's settings cannot be read, exactly when it is
/// `?`; a message without a prefix (it mentioned the bot) always goes on.
pub proof fn lemma_prefix_rule(p: Seq<char>, g: Seq<char>)
    ensures
        prefix_accepted(Some(p), Some(g)) <==> p == g,
        prefix_accepted(Some(p), None) <==> p == seq!['?'],
        prefix_accepted(None, Some(g)),
        prefix_accepted(None, None),
{
    reveal_strlit("?");
    assert("?"@ =~= seq!['?']);
}

/// Where the handling of a message stands.
pub enum DispatchStep {
    /// Nothing has been looked at.
    Start,
    /// Waiting to learn whether the message was sent in a server's channel.
    AwaitChannel,
    /// Waiting for the message text to be matched against the command pattern.
    AwaitMatch,
    /// Waiting for the server's prefix.
    AwaitPrefix { matched: CommandMatch },
    /// Waiting for the bot's own permissions in the channel.
    AwaitSelfPermissions { matched: CommandMatch },
    /// Waiting to learn whether the author may run the command.
    AwaitMemberPermission { command: usize, args: String },
    /// Handling is over.
    Finished,
}

/// What the outside world reports back while a message is handled.
pub enum DispatchEvent {
    /// A message arrived: whether its author is a bot, whether it has no text.
    Message { from_bot: bool, content_empty: bool },
    /// Whether the message came from a server's channel.
    Channel { in_guild_channel: bool },
    /// What the command pattern captured (see [`RegexFramework::match_command`]).
    Matched(Option<CommandMatch>),
    /// The server's prefix, or `None` where its settings could not be read.
    GuildPrefix(Option<String>),
    /// Whether the bot may send messages and embed links in the channel, or
    /// `None` where its permissions could not be read.
    SelfPermissions(Option<(bool, bool)>),
    /// Whether the author may run the command.
    MemberPermission(bool),
}

/// What the outside world is to do next.
pub enum DispatchAction {
    /// Nothing.
    Nothing,
    /// Find out whether the message came from a server's channel.
    ResolveChannel,
    /// Match the message text against the command pattern.
    MatchCommand,
    /// Read the server's prefix.
    FetchGuildPrefix,
    /// Read the bot's permissions in the channel.
    CheckSelfPermissions,
    /// Find out whether the author may run this command.
    CheckMemberPermission { command: usize },
    /// Run this command with these arguments.
    Run { command: usize, args: Args },
    /// Reply in the channel.
    Say(String),
    /// Record that the bot lacks permissions in the server.
    ReportMissingPermissions,
    /// Record that the bot's permissions could not be read.
    ReportPermissionError,
    /// Stop: the framework cannot go on (a match without a registered command,
    /// or an argument pattern that does not compile).
    Fail(String),
}

/// The text of an optional string.
pub open spec fn opt_view(s: Option<String>) -> Option<Seq<char>> {
    match s {
        Some(t) => Some(t@),
        None => None,
    }
}

/// What a slash command comes to.
pub enum ExecutePlan {
    /// Run the command with these arguments.
    Run { command: usize, args: Args },
    /// Reply to the interaction.
    Reply(String),
    /// Nothing.
    Nothing,
}

impl RegexFramework {
    /// A step that waits for a member's permission names a registered command
    /// that may be invoked from a message.
    pub open spec fn step_ok(&self, step: DispatchStep) -> bool {
        step matches DispatchStep::AwaitMemberPermission { command, .. } ==> {
            &&& command < self.registered().len()
            &&& self.registered()[command as int].kind != CommandKind::Slash
        }
    }

    /// The handling of a message, one report at a time:
    /// a message from a bot or without text is ignored; one outside a server's
    /// channel is ignored; text that does not match the command pattern is
    /// ignored; a captured prefix must be accepted ([`prefix_accepted`]); the
    /// bot must be able to send messages and embed links; the command is looked
    /// up by the lower-case form of the captured name, and a slash-only command
    /// is ignored; a member who may run it has it run with the arguments parsed
    /// from the captured text ([`Args::from`]), any other is told why not
    /// ([`permission_denied_text`]). A report that does not fit the step
    /// changes nothing.
    pub open spec fn dispatch_transition(
        &self,
        step: DispatchStep,
        event: DispatchEvent,
        next: DispatchStep,
        action: DispatchAction,
    ) -> bool {
        match (step, event) {
            (DispatchStep::Start, DispatchEvent::Message { from_bot, content_empty }) =>
                if from_bot || content_empty {
                    next is Finished && action is Nothing
                } else {
                    next is AwaitChannel && action is ResolveChannel
                },
            (DispatchStep::AwaitChannel, DispatchEvent::Channel { in_guild_channel }) =>
                if in_guild_channel {
                    next is AwaitMatch && action is MatchCommand
                } else {
                    next is Finished && action is Nothing
                },
            (DispatchStep::AwaitMatch, DispatchEvent::Matched(m)) => match m {
                None => next is Finished && action is Nothing,
                Some(m) => if m.prefix is Some {
                    next == (DispatchStep::AwaitPrefix { matched: m }) && action is FetchGuildPrefix
                } else {
                    next == (DispatchStep::AwaitSelfPermissions { matched: m }) && action is CheckSelfPermissions
                },
            },
            (DispatchStep::AwaitPrefix { matched }, DispatchEvent::GuildPrefix(g)) =>
                if prefix_accepted(opt_view(matched.prefix), opt_view(g)) {
                    next == (DispatchStep::AwaitSelfPermissions { matched }) && action is CheckSelfPermissions
                } else {
                    next is Finished && action is Nothing
                },
            (DispatchStep::AwaitSelfPermissions { matched }, DispatchEvent::SelfPermissions(perms)) => match perms {
                None => next is Finished && action is ReportPermissionError,
                Some((send, embed)) => if !(send && embed) {
                    next is Finished && action is ReportMissingPermissions
                } else {
                    match matched.cmd {
                        None => next is Finished && action is Fail,
                        Some(cmd) => if !self.lookup().contains_key(lowercase(cmd@)) {
                            next is Finished && action is Fail
                        } else {
                            let i = self.lookup()[lowercase(cmd@)];
                            if self.registered()[i].kind == CommandKind::Slash {
                                next is Finished && action is Nothing
                            } else {
                                &&& next matches DispatchStep::AwaitMemberPermission { command, args }
                                &&& command == i
                                &&& args@ == (match matched.args { Some(a) => a@, None => Seq::<char>::empty() })
                                &&& action == (DispatchAction::CheckMemberPermission { command })
                            }
                        }
                    }
                },
            },
            (DispatchStep::AwaitMemberPermission { command, args }, DispatchEvent::MemberPermission(granted)) =>
                if granted {
                    &&& next is Finished
                    &&& if regex_compiles(args_pattern(self.registered()[command as int].args@), false, false) {
                        action matches DispatchAction::Run { command: c, args: a } && c == command && a.wf()
                            && a@ == parsed_args(self.registered()[command as int].args@, args@)
                    } else {
                        action is Fail
                    }
                } else {
                    &&& next is Finished
                    &&& match permission_denied_text(self.registered()[command as int].required_permissions, false) {
                        Some(t) => action matches DispatchAction::Say(r) && r@ == t,
                        None => action is Nothing,
                    }
                },
            _ => next == step && action is Nothing,
        }
    }

    /// What a slash command comes to once it is known whether the member may
    /// run it: a member who may has it run with the arguments its options give
    /// ([`interaction_args`]); any other is told why not
    /// ([`permission_denied_text`] for slash commands).
    pub fn execute_plan(
        &self,
        command: usize,
        options: &Vec<(String, Option<OptionValue>)>,
        granted: bool,
    ) -> (res: ExecutePlan)
        requires
            self.wf(),
            command < self.registered().len(),
        ensures
            granted ==> (res matches ExecutePlan::Run { command: c, args } && c == command && args.wf()
                && args@ == text_map(option_pairs(options@))),
            !granted ==> match permission_denied_text(self.registered()[command as int].required_permissions, true) {
                Some(t) => res matches ExecutePlan::Reply(r) && r@ == t,
                None => res is Nothing,
            },
    {
        if granted {
            ExecutePlan::Run { command, args: interaction_args(options) }
        } else {
            match permission_denied_reply(self.registered[command].required_permissions, true) {
                Some(t) => ExecutePlan::Reply(t),
                None => ExecutePlan::Nothing,
            }
        }
    }

    /// The names the command pattern is built from are the names of the lookup
    /// table, each once.
    pub proof fn lemma_name_order(&self)
        requires
            self.wf(),
        ensures
            self.name_order().no_duplicates(),
            forall|n: Seq<char>| self.name_order().contains(n) <==> #[trigger] self.lookup().contains_key(n),
    {
        let e = self.commands@;
        let k = key_seq(e);
        assert forall|n: Seq<char>| k.contains(n) <==> #[trigger] self.lookup().contains_key(n) by {
            lemma_keyed_map_domain(e, n);
            if k.contains(n) {
                let i = choose|i: int| 0 <= i < k.len() && k[i] == n;
                assert(e[i].0@ == n);
            }
            if keyed_map(e).contains_key(n) {
                let i = choose|i: int| 0 <= i < e.len() && e[i].0@ == n;
                assert(k[i] == n);
            }
        }
    }

    /// A message runs a command only when the author was found to be allowed
    /// to run it, and never a command that may only be invoked as a slash
    /// command; a message from a bot is never acted on.
    pub proof fn lemma_dispatch_runs_only_permitted(
        &self,
        step: DispatchStep,
        event: DispatchEvent,
        next: DispatchStep,
        action: DispatchAction,
    )
        requires
            self.wf(),
            self.step_ok(step),
            self.dispatch_transition(step, event, next, action),
        ensures
            action matches DispatchAction::Run { command, .. } ==> {
                &&& step matches DispatchStep::AwaitMemberPermission { command: c, .. } && c == command
                &&& event matches DispatchEvent::MemberPermission(granted) && granted
                &&& self.registered()[command as int].kind != CommandKind::Slash
            },
            step is Start ==> (event matches DispatchEvent::Message { from_bot, .. } && from_bot
                ==> next is Finished && action is Nothing),
    {
    }

    /// Once the server's prefix is known, a message that captured a prefix
    /// goes on to the bot's permission check exactly when the captured prefix
    /// is the server's; any other prefix ends the handling with nothing done.
    pub proof fn lemma_server_prefix_decides(
        &self,
        matched: CommandMatch,
        server_prefix: String,
        next: DispatchStep,
        action: DispatchAction,
    )
        requires
            matched.prefix is Some,
            self.dispatch_transition(
                DispatchStep::AwaitPrefix { matched },
                DispatchEvent::GuildPrefix(Some(server_prefix)),
                next,
                action,
            ),
        ensures
            matched.prefix->0@ == server_prefix@ ==> next is AwaitSelfPermissions && action is CheckSelfPermissions,
            matched.prefix->0@ != server_prefix@ ==> next is Finished && action is Nothing,
    {
    }

    /// Takes one step of the handling of a message (see [`Self::dispatch_transition`]).
    pub fn dispatch_step(&self, step: DispatchStep, event: DispatchEvent) -> (res: (DispatchStep, DispatchAction))
        requires
            self.wf(),
            self.step_ok(step),
        ensures
            self.dispatch_transition(step, event, res.0, res.1),
            self.step_ok(res.0),
    {
        match (step, event) {
            (DispatchStep::Start, DispatchEvent::Message { from_bot, content_empty }) => {
                if from_bot || content_empty {
                    (DispatchStep::Finished, DispatchAction::Nothing)
                } else {
                    (DispatchStep::AwaitChannel, DispatchAction::ResolveChannel)
                }
            },
            (DispatchStep::AwaitChannel, DispatchEvent::Channel { in_guild_channel }) => {
                if in_guild_channel {
                    (DispatchStep::AwaitMatch, DispatchAction::MatchCommand)
                } else {
                    (DispatchStep::Finished, DispatchAction::Nothing)
                }
            },
            (DispatchStep::AwaitMatch, DispatchEvent::Matched(m)) => match m {
                None => (DispatchStep::Finished, DispatchAction::Nothing),
                Some(m) => if m.prefix.is_some() {
                    (DispatchStep::AwaitPrefix { matched: m }, DispatchAction::FetchGuildPrefix)
                } else {
                    (DispatchStep::AwaitSelfPermissions { matched: m }, DispatchAction::CheckSelfPermissions)
                },
            },
            (DispatchStep::AwaitPrefix { matched }, DispatchEvent::GuildPrefix(g)) => {
                if prefix_matches(&matched.prefix, &g) {
                    (DispatchStep::AwaitSelfPermissions { matched }, DispatchAction::CheckSelfPermissions)
                } else {
                    (DispatchStep::Finished, DispatchAction::Nothing)
                }
            },
            (DispatchStep::AwaitSelfPermissions { matched }, DispatchEvent::SelfPermissions(perms)) => match perms {
                None => (DispatchStep::Finished, DispatchAction::ReportPermissionError),
                Some((send, embed)) => if !(send && embed) {
                    (DispatchStep::Finished, DispatchAction::ReportMissingPermissions)
                } else {
                    match &matched.cmd {
                        None => (
                            DispatchStep::Finished,
                            DispatchAction::Fail(String::from_str("the command pattern matched without a command name")),
                        ),
                        Some(cmd) => {
                            let name = to_lowercase(cmd.as_str());
                            match self.command_index(name.as_str()) {
                                None => (
                                    DispatchStep::Finished,
                                    DispatchAction::Fail(String::from_str("the matched command is not registered")),
                                ),
                                Some(i) => {
                                    if self.registered[i].kind == CommandKind::Slash {
                                        (DispatchStep::Finished, DispatchAction::Nothing)
                                    } else {
                                        let args = match &matched.args {
                                            Some(a) => a.clone(),
                                            None => String::new(),
                                        };
                                        (
                                            DispatchStep::AwaitMemberPermission { command: i, args },
                                            DispatchAction::CheckMemberPermission { command: i },
                                        )
                                    }
                                },
                            }
                        },
                    }
                },
            },
            (DispatchStep::AwaitMemberPermission { command, args }, DispatchEvent::MemberPermission(granted)) => {
                let cmd = &self.registered[command];
                if granted {
                    match Args::from(args.as_str(), &cmd.args) {
                        Some(a) => (DispatchStep::Finished, DispatchAction::Run { command, args: a }),
                        None => (
                            DispatchStep::Finished,
                            DispatchAction::Fail(String::from_str("the argument pattern of the command does not compile")),
                        ),
                    }
                } else {
                    match permission_denied_reply(cmd.required_permissions, false) {
                        Some(t) => (DispatchStep::Finished, DispatchAction::Say(t)),
                        None => (DispatchStep::Finished, DispatchAction::Nothing),
                    }
                }
            },
            (step, _) => (step, DispatchAction::Nothing),
        }
    }
}

} // verus!
