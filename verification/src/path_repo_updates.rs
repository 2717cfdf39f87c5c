//! How the repositories on the path are kept up to date.

use vstd::prelude::*;
use vstd::string::*;
use crate::config_value::{ConfigEntry, ConfigValue};
use crate::pattern::optional_view;
use crate::string_map::StringMap;
use crate::text::{lowercased, same_text, to_lowercase};

verus! {

/// What to do when the tool itself can be updated.
#[derive(Debug, Clone, Copy, PartialEq, Eq, Structural)]
pub enum PathRepoUpdatesSelfUpdateEnum {
    True,
    False,
    NoCheck,
    Ask,
}

impl PathRepoUpdatesSelfUpdateEnum {
    /// Whether not even a check for updates is wanted.
    pub fn do_not_check(&self) -> (r: bool)
        ensures
            r == (*self == PathRepoUpdatesSelfUpdateEnum::NoCheck),
    {
        match self {
            PathRepoUpdatesSelfUpdateEnum::NoCheck => true,
            _ => false,
        }
    }

    /// Whether updates are declined: always for `False`, and for `Ask`
    /// where nobody can be asked because the shell is not `interactive`.
    pub fn is_false(&self, interactive: bool) -> (r: bool)
        ensures
            r == (*self == PathRepoUpdatesSelfUpdateEnum::False || (*self
                == PathRepoUpdatesSelfUpdateEnum::Ask && !interactive)),
    {
        match self {
            PathRepoUpdatesSelfUpdateEnum::False => true,
            PathRepoUpdatesSelfUpdateEnum::Ask => !interactive,
            _ => false,
        }
    }

    /// Whether the user is to be asked: for `Ask`, in an `interactive` shell.
    pub fn is_ask(&self, interactive: bool) -> (r: bool)
        ensures
            r == (*self == PathRepoUpdatesSelfUpdateEnum::Ask && interactive),
    {
        match self {
            PathRepoUpdatesSelfUpdateEnum::Ask => interactive,
            _ => false,
        }
    }
}

/// The settings of one repository, where they differ from the general ones.
#[derive(Debug)]
pub struct PathRepoUpdatesPerRepoConfig {
    pub enabled: bool,
    pub ref_type: String,
    pub ref_match: Option<String>,
}

/// A copy of an optional string.
pub fn clone_optional(value: &Option<String>) -> (r: Option<String>)
    ensures
        r == *value,
{
    match value {
        Some(text) => Some(text.clone()),
        None => None,
    }
}

impl Clone for PathRepoUpdatesPerRepoConfig {
    fn clone(&self) -> (r: Self)
        ensures
            r == *self,
    {
        PathRepoUpdatesPerRepoConfig {
            enabled: self.enabled,
            ref_type: self.ref_type.clone(),
            ref_match: clone_optional(&self.ref_match),
        }
    }
}

/// The settings for updating the repositories on the path.
#[derive(Debug)]
pub struct PathRepoUpdatesConfig {
    pub enabled: bool,
    pub self_update: PathRepoUpdatesSelfUpdateEnum,
    pub pre_auth: bool,
    pub pre_auth_timeout: u64,
    pub background_updates: bool,
    pub background_updates_timeout: u64,
    pub interval: u64,
    pub ref_type: String,
    pub ref_match: Option<String>,
    pub per_repo_config: StringMap<PathRepoUpdatesPerRepoConfig>,
}

/// Two minutes.
pub const DEFAULT_PRE_AUTH_TIMEOUT: u64 = 120;

/// One hour.
pub const DEFAULT_BACKGROUND_UPDATES_TIMEOUT: u64 = 3600;

/// Twelve hours.
pub const DEFAULT_INTERVAL: u64 = 43200;

impl Default for PathRepoUpdatesConfig {
    fn default() -> (r: Self)
        ensures
            PathRepoUpdatesConfig::is_default(r),
    {
        PathRepoUpdatesConfig {
            enabled: true,
            self_update: PathRepoUpdatesSelfUpdateEnum::Ask,
            pre_auth: true,
            pre_auth_timeout: DEFAULT_PRE_AUTH_TIMEOUT,
            background_updates: true,
            background_updates_timeout: DEFAULT_BACKGROUND_UPDATES_TIMEOUT,
            interval: DEFAULT_INTERVAL,
            ref_type: String::from_str("branch"),
            ref_match: None,
            per_repo_config: StringMap::new(),
        }
    }
}

impl PathRepoUpdatesConfig {
    /// Whether `repo_id` is to be updated, and to which kind of reference
    /// and which match: its own settings where it has some, else the
    /// general ones.
    pub open spec fn settings_for(self, repo_id: Seq<char>) -> (bool, Seq<char>, Option<Seq<char>>) {
        if self.per_repo_config@.dom().contains(repo_id) {
            let own = self.per_repo_config@[repo_id];
            (own.enabled, own.ref_type@, optional_view(own.ref_match))
        } else {
            (self.enabled, self.ref_type@, optional_view(self.ref_match))
        }
    }

    /// Whether `repo_id` is to be updated, and to which kind of reference
    /// and which match.
    pub fn update_config(&self, repo_id: &str) -> (r: (bool, String, Option<String>))
        ensures
            (r.0, r.1@, optional_view(r.2)) == self.settings_for(repo_id@),
    {
        match self.per_repo_config.get(repo_id) {
            Some(value) => (value.enabled, value.ref_type.clone(), clone_optional(&value.ref_match)),
            None => (self.enabled, self.ref_type.clone(), clone_optional(&self.ref_match)),
        }
    }

    /// Whether an update of `repo_id` that ended with `outcome` brought
    /// anything new: only where it ran and said so.
    pub fn update_outcome(outcome: Option<bool>) -> (r: bool)
        ensures
            r == (outcome == Some(true)),
    {
        match outcome {
            Some(updated) => updated,
            None => false,
        }
    }

    /// Updates `repo_id` where its settings allow it, through
    /// `update_git_repo`, which is given the repository, the kind of
    /// reference and the match, and answers `None` where it failed. Says
    /// whether the update brought anything new; a repository whose updates
    /// are disabled is left alone.
    pub fn update<F: FnOnce(&str, String, Option<String>) -> Option<bool>>(
        &self,
        repo_id: &str,
        update_git_repo: F,
    ) -> (r: bool)
        requires
            forall|ref_type: String, ref_match: Option<String>|
                call_requires(update_git_repo, (repo_id, ref_type, ref_match)),
        ensures
            !self.settings_for(repo_id@).0 ==> !r,
            self.settings_for(repo_id@).0 ==> exists|
                ref_type: String,
                ref_match: Option<String>,
                outcome: Option<bool>,
            |
                {
                    &&& #[trigger] call_ensures(
                        update_git_repo,
                        (repo_id, ref_type, ref_match),
                        outcome,
                    )
                    &&& ref_type@ == self.settings_for(repo_id@).1
                    &&& optional_view(ref_match) == self.settings_for(repo_id@).2
                    &&& r == (outcome == Some(true))
                },
    {
        let (enabled, ref_type, ref_match) = self.update_config(repo_id);
        if !enabled {
            return false;
        }
        let ghost kind = ref_type;
        let ghost matching = ref_match;
        let outcome = update_git_repo(repo_id, ref_type, ref_match);
        proof {
            assert(call_ensures(update_git_repo, (repo_id, kind, matching), outcome));
        }
        Self::update_outcome(outcome)
    }
}

/// What the settings of one repository say.
pub struct PerRepoSettings {
    pub enabled: bool,
    pub ref_type: Seq<char>,
    pub ref_match: Option<Seq<char>>,
}

impl View for PathRepoUpdatesPerRepoConfig {
    type V = PerRepoSettings;

    open spec fn view(&self) -> PerRepoSettings {
        PerRepoSettings {
            enabled: self.enabled,
            ref_type: self.ref_type@,
            ref_match: optional_view(self.ref_match),
        }
    }
}

/// The settings that `value` gives for one repository: updates are enabled
/// unless it says otherwise, the reference is a branch unless it names
/// another kind, and there is a match only where it gives one. An entry
/// of another type than expected counts as absent.
pub open spec fn per_repo_settings(value: ConfigValue) -> PerRepoSettings {
    PerRepoSettings {
        enabled: match value.member_truth("enabled"@) {
            Some(enabled) => enabled,
            None => true,
        },
        ref_type: match value.member_text("ref_type"@) {
            Some(text) => text,
            None => "branch"@,
        },
        ref_match: value.member_text("ref_match"@),
    }
}

impl PathRepoUpdatesPerRepoConfig {
    /// Reads the settings of one repository.
    pub fn from_config_value(config_value: &ConfigValue) -> (r: Self)
        ensures
            r@ == per_repo_settings(*config_value),
    {
        PathRepoUpdatesPerRepoConfig {
            enabled: match config_value.get_as_bool("enabled") {
                Some(value) => value,
                None => true,
            },
            ref_type: match config_value.get_as_str("ref_type") {
                Some(value) => value,
                None => String::from_str("branch"),
            },
            ref_match: config_value.get_as_str("ref_match"),
        }
    }
}

/// What a word says about updating the tool itself. The word is taken as
/// it is; anything unknown means to ask.
pub open spec fn self_update_word(word: Seq<char>) -> PathRepoUpdatesSelfUpdateEnum {
    if word == "true"@ || word == "yes"@ || word == "y"@ {
        PathRepoUpdatesSelfUpdateEnum::True
    } else if word == "false"@ || word == "no"@ || word == "n"@ {
        PathRepoUpdatesSelfUpdateEnum::False
    } else if word == "nocheck"@ {
        PathRepoUpdatesSelfUpdateEnum::NoCheck
    } else {
        PathRepoUpdatesSelfUpdateEnum::Ask
    }
}

/// What a number says about updating the tool itself: 0 is no, 1 is yes,
/// anything else means to ask.
pub open spec fn self_update_number(number: int) -> PathRepoUpdatesSelfUpdateEnum {
    if number == 0 {
        PathRepoUpdatesSelfUpdateEnum::False
    } else if number == 1 {
        PathRepoUpdatesSelfUpdateEnum::True
    } else {
        PathRepoUpdatesSelfUpdateEnum::Ask
    }
}

/// What the configuration says about updating the tool itself, under
/// `self_update`: a boolean, a word in any case, or a number; without any
/// of these it means to ask.
pub open spec fn self_update_setting(value: ConfigValue) -> PathRepoUpdatesSelfUpdateEnum {
    match value.member_truth("self_update"@) {
        Some(true) => PathRepoUpdatesSelfUpdateEnum::True,
        Some(false) => PathRepoUpdatesSelfUpdateEnum::False,
        None => match value.member_text("self_update"@) {
            Some(word) => self_update_word(lowercased(word)),
            None => match value.member_number("self_update"@) {
                Some(number) => self_update_number(number),
                None => PathRepoUpdatesSelfUpdateEnum::Ask,
            },
        },
    }
}

/// Reads a lower-case word on updating the tool itself.
pub fn self_update_from_word(word: &str) -> (r: PathRepoUpdatesSelfUpdateEnum)
    ensures
        r == self_update_word(word@),
{
    if same_text(word, "true") || same_text(word, "yes") || same_text(word, "y") {
        PathRepoUpdatesSelfUpdateEnum::True
    } else if same_text(word, "false") || same_text(word, "no") || same_text(word, "n") {
        PathRepoUpdatesSelfUpdateEnum::False
    } else if same_text(word, "nocheck") {
        PathRepoUpdatesSelfUpdateEnum::NoCheck
    } else {
        PathRepoUpdatesSelfUpdateEnum::Ask
    }
}

/// Reads what the configuration says about updating the tool itself.
pub fn read_self_update(config_value: &ConfigValue) -> (r: PathRepoUpdatesSelfUpdateEnum)
    ensures
        r == self_update_setting(*config_value),
{
    if let Some(value) = config_value.get_as_bool("self_update") {
        if value {
            PathRepoUpdatesSelfUpdateEnum::True
        } else {
            PathRepoUpdatesSelfUpdateEnum::False
        }
    } else if let Some(value) = config_value.get_as_str("self_update") {
        let word = to_lowercase(value.as_str());
        self_update_from_word(word.as_str())
    } else if let Some(value) = config_value.get_as_integer("self_update") {
        if value == 0 {
            PathRepoUpdatesSelfUpdateEnum::False
        } else if value == 1 {
            PathRepoUpdatesSelfUpdateEnum::True
        } else {
            PathRepoUpdatesSelfUpdateEnum::Ask
        }
    } else {
        PathRepoUpdatesSelfUpdateEnum::Ask
    }
}

/// Whether `seconds` may be the length of time that `value` gives, read
/// with `parse_duration`: a number that is not negative counts as
/// seconds, a text is what `parse_duration` makes of it, and `default`
/// stands in for anything else and for a text that it does not
/// understand.
pub open spec fn duration_read<F: Fn(&str) -> Option<u64>>(
    value: Option<ConfigValue>,
    default: u64,
    parse_duration: F,
    seconds: u64,
) -> bool {
    match value {
        Some(ConfigValue::Integer(number)) => seconds == if number >= 0 {
            number as u64
        } else {
            default
        },
        Some(ConfigValue::String(text)) => exists|written: &str, parsed: Option<u64>|
            {
                &&& written@ == text@
                &&& #[trigger] call_ensures(parse_duration, (written,), parsed)
                &&& seconds == duration_or_default(parsed, default)
            },
        _ => seconds == default,
    }
}

/// The length of time that was parsed, or `default` without one.
pub open spec fn duration_or_default(parsed: Option<u64>, default: u64) -> u64 {
    match parsed {
        Some(seconds) => seconds,
        None => default,
    }
}

/// Reads a length of time in seconds from `value`, with `parse_duration`
/// for one that is written as a text.
pub fn parse_duration_or_default<F: Fn(&str) -> Option<u64>>(
    value: Option<&ConfigValue>,
    default: u64,
    parse_duration: &F,
) -> (r: u64)
    requires
        forall|text: &str| call_requires(*parse_duration, (text,)),
    ensures
        duration_read(
            match value {
                Some(value) => Some(*value),
                None => None,
            },
            default,
            *parse_duration,
            r,
        ),
{
    match value {
        Some(ConfigValue::Integer(number)) => {
            if *number >= 0 {
                *number as u64
            } else {
                default
            }
        },
        Some(ConfigValue::String(text)) => {
            let written = text.as_str();
            let parsed = parse_duration(written);
            proof {
                assert(call_ensures(*parse_duration, (written,), parsed));
            }
            match parsed {
                Some(seconds) => seconds,
                None => default,
            }
        },
        _ => default,
    }
}

/// What the first `upto` of `entries` say about single repositories, by
/// repository; of two entries for one repository the later counts.
pub open spec fn per_repo_table(entries: Seq<ConfigEntry>, upto: int) -> Map<
    Seq<char>,
    PerRepoSettings,
>
    decreases upto,
{
    if upto <= 0 || upto > entries.len() {
        Map::empty()
    } else {
        per_repo_table(entries, upto - 1).insert(
            entries[upto - 1].key@,
            per_repo_settings(entries[upto - 1].value),
        )
    }
}

/// What the configuration says about single repositories, under
/// `per_repo_config`; nothing unless that is a table.
pub open spec fn per_repo_setting(value: ConfigValue) -> Map<Seq<char>, PerRepoSettings> {
    match value.member("per_repo_config"@) {
        Some(ConfigValue::Table(entries)) => per_repo_table(entries@, entries@.len() as int),
        _ => Map::empty(),
    }
}

/// What a map of settings says, by repository.
pub open spec fn settings_views(map: Map<Seq<char>, PathRepoUpdatesPerRepoConfig>) -> Map<
    Seq<char>,
    PerRepoSettings,
> {
    map.map_values(|settings: PathRepoUpdatesPerRepoConfig| settings@)
}

/// Reads what the configuration says about single repositories.
pub fn read_per_repo(config_value: &ConfigValue) -> (r: StringMap<PathRepoUpdatesPerRepoConfig>)
    ensures
        settings_views(r@) == per_repo_setting(*config_value),
{
    let mut out: StringMap<PathRepoUpdatesPerRepoConfig> = StringMap::new();
    proof {
        assert(settings_views(out@) =~= Map::<Seq<char>, PerRepoSettings>::empty());
    }
    if let Some(value) = config_value.get("per_repo_config") {
        if let Some(entries) = value.as_table() {
            let mut i: usize = 0;
            while i < entries.len()
                invariant
                    i <= entries.len(),
                    settings_views(out@) == per_repo_table(entries@, i as int),
                decreases entries.len() - i,
            {
                let ghost before = out@;
                let settings = PathRepoUpdatesPerRepoConfig::from_config_value(&entries[i].value);
                out.insert(entries[i].key.as_str(), settings);
                proof {
                    assert(settings_views(before.insert(entries@[i as int].key@, settings))
                        =~= settings_views(before).insert(entries@[i as int].key@, settings@));
                }
                i = i + 1;
            }
        }
    }
    out
}

impl PathRepoUpdatesConfig {
    /// Whether `config` is what `value` configures, with lengths of time
    /// read by `parse_duration`. What the configuration leaves open is as
    /// in the default.
    pub open spec fn configured_by<F: Fn(&str) -> Option<u64>>(
        config: PathRepoUpdatesConfig,
        value: ConfigValue,
        parse_duration: F,
    ) -> bool {
        &&& config.enabled == match value.member_truth("enabled"@) {
            Some(enabled) => enabled,
            None => true,
        }
        &&& config.self_update == self_update_setting(value)
        &&& config.pre_auth == match value.member_truth("pre_auth"@) {
            Some(pre_auth) => pre_auth,
            None => true,
        }
        &&& duration_read(
            value.member("pre_auth_timeout"@),
            DEFAULT_PRE_AUTH_TIMEOUT,
            parse_duration,
            config.pre_auth_timeout,
        )
        &&& config.background_updates == match value.member_truth("background_updates"@) {
            Some(background_updates) => background_updates,
            None => true,
        }
        &&& duration_read(
            value.member("background_updates_timeout"@),
            DEFAULT_BACKGROUND_UPDATES_TIMEOUT,
            parse_duration,
            config.background_updates_timeout,
        )
        &&& duration_read(
            value.member("interval"@),
            DEFAULT_INTERVAL,
            parse_duration,
            config.interval,
        )
        &&& config.ref_type@ == match value.member_text("ref_type"@) {
            Some(text) => text,
            None => "branch"@,
        }
        &&& optional_view(config.ref_match) == value.member_text("ref_match"@)
        &&& settings_views(config.per_repo_config@) == per_repo_setting(value)
    }

    /// Whether `config` is the default configuration.
    pub open spec fn is_default(config: PathRepoUpdatesConfig) -> bool {
        &&& config.enabled
        &&& config.self_update == PathRepoUpdatesSelfUpdateEnum::Ask
        &&& config.pre_auth
        &&& config.pre_auth_timeout == DEFAULT_PRE_AUTH_TIMEOUT
        &&& config.background_updates
        &&& config.background_updates_timeout == DEFAULT_BACKGROUND_UPDATES_TIMEOUT
        &&& config.interval == DEFAULT_INTERVAL
        &&& config.ref_type@ == "branch"@
        &&& config.ref_match is None
        &&& config.per_repo_config@ == Map::<Seq<char>, PathRepoUpdatesPerRepoConfig>::empty()
    }

    /// Reads the settings from the configuration, with `parse_duration` for
    /// lengths of time that are written as a text. Without a configuration
    /// the settings are the default ones.
    pub fn from_config_value<F: Fn(&str) -> Option<u64>>(
        config_value: Option<&ConfigValue>,
        parse_duration: F,
    ) -> (r: Self)
        requires
            forall|text: &str| call_requires(parse_duration, (text,)),
        ensures
            match config_value {
                Some(value) => Self::configured_by(r, *value, parse_duration),
                None => Self::is_default(r),
            },
    {
        let config_value = match config_value {
            Some(config_value) => config_value,
            None => {
                return PathRepoUpdatesConfig::default();
            },
        };
        let per_repo_config = read_per_repo(config_value);
        let pre_auth_timeout = parse_duration_or_default(
            config_value.get("pre_auth_timeout"),
            DEFAULT_PRE_AUTH_TIMEOUT,
            &parse_duration,
        );
        let background_updates_timeout = parse_duration_or_default(
            config_value.get("background_updates_timeout"),
            DEFAULT_BACKGROUND_UPDATES_TIMEOUT,
            &parse_duration,
        );
        let interval = parse_duration_or_default(
            config_value.get("interval"),
            DEFAULT_INTERVAL,
            &parse_duration,
        );
        let self_update = read_self_update(config_value);
        PathRepoUpdatesConfig {
            enabled: match config_value.get_as_bool("enabled") {
                Some(value) => value,
                None => true,
            },
            self_update,
            pre_auth: match config_value.get_as_bool("pre_auth") {
                Some(value) => value,
                None => true,
            },
            pre_auth_timeout,
            background_updates: match config_value.get_as_bool("background_updates") {
                Some(value) => value,
                None => true,
            },
            background_updates_timeout,
            interval,
            ref_type: match config_value.get_as_str("ref_type") {
                Some(value) => value,
                None => String::from_str("branch"),
            },
            ref_match: config_value.get_as_str("ref_match"),
            per_repo_config,
        }
    }
}

} // verus!
