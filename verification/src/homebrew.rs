//! Packages and taps of the package manager that a project asks for, and
//! what a run reports about them.

use vstd::prelude::*;
use vstd::string::*;
use crate::clock::{RunClock, Timestamp};
use crate::homebrew_checks::{without_records, HomebrewOperationUpdateCache};
use crate::path_repo_updates::clone_optional;
use crate::pattern::optional_view;
use crate::registry::{
    any_released, sweep_outcome, InstalledResource, Registry, Removal, ResourceKey, ResourceKind, SweepReport,
};
use crate::store::CacheObject;
use crate::text::{
    contains_char, decimal, decimal_text, ends_with, has_suffix, join, joined, same_text, views,
};
use crate::version::characters;
use crate::version::{codes, sequence_rank};

verus! {

/// What was done about a package or a tap in this run.
#[derive(Debug, Clone, Copy, PartialEq, Eq, Hash, Structural)]
pub enum HomebrewHandled {
    /// It was installed.
    Handled,
    /// Nothing was done about it: it was left as it was.
    Noop,
    /// It was there and was brought up to date.
    Updated,
    /// Nothing was tried yet.
    Unhandled,
}

impl HomebrewHandled {
    /// Whether a summary names the package or tap: something was tried.
    pub open spec fn is_reported(self) -> bool {
        self != HomebrewHandled::Unhandled
    }

    /// Decides `is_reported`.
    pub fn reported(&self) -> (r: bool)
        ensures
            r == self.is_reported(),
    {
        match self {
            HomebrewHandled::Unhandled => false,
            _ => true,
        }
    }
}

/// Whether a package is a formula or a cask.
#[derive(Debug, Clone, Copy, PartialEq, Eq, Structural)]
pub enum HomebrewInstallType {
    Formula,
    Cask,
}

/// `a` does not come after `b` in the order of strings: character by
/// character, a proper prefix first.
pub open spec fn text_at_most(a: Seq<char>, b: Seq<char>) -> bool {
    sequence_rank(codes(a), codes(b)) <= 0
}

/// Whether `sorted` holds the texts of `of`, each as often as `of` does,
/// in ascending order.
pub open spec fn is_sorted_arrangement(sorted: Seq<Seq<char>>, of: Seq<Seq<char>>) -> bool {
    &&& sorted.to_multiset() == of.to_multiset()
    &&& forall|i: int, j: int|
        0 <= i <= j < sorted.len() ==> text_at_most(#[trigger] sorted[i], #[trigger] sorted[j])
}

/// Sorts `names` with `itertools::Itertools::sorted`. Trusted: the result
/// holds the same strings, each as often, in the ascending order of
/// strings, which goes by the characters' code points.
#[verifier::external_body]
pub(crate) fn sorted_names(names: Vec<String>) -> (r: Vec<String>)
    ensures
        is_sorted_arrangement(views(r@), views(names@)),
{
    itertools::Itertools::sorted(names.into_iter()).collect()
}

/// How often `kind` stands among the first `upto` of `outcomes`.
pub open spec fn count_of(outcomes: Seq<HomebrewHandled>, kind: HomebrewHandled, upto: int) -> nat
    decreases upto,
{
    if upto <= 0 {
        0
    } else {
        count_of(outcomes, kind, upto - 1) + if upto <= outcomes.len() && outcomes[upto - 1]
            == kind {
            1nat
        } else {
            0nat
        }
    }
}

/// The outcome of the item at `index`: `Unhandled` for one without an
/// entry in `outcomes`.
pub open spec fn outcome_at(outcomes: Seq<HomebrewHandled>, index: int) -> HomebrewHandled {
    if 0 <= index < outcomes.len() {
        outcomes[index]
    } else {
        HomebrewHandled::Unhandled
    }
}

/// Of the first `upto` of `names`, those whose outcome is reported.
pub open spec fn reported_names(
    names: Seq<Seq<char>>,
    outcomes: Seq<HomebrewHandled>,
    upto: int,
) -> Seq<Seq<char>>
    decreases upto,
{
    if upto <= 0 {
        Seq::empty()
    } else if upto <= names.len() && outcome_at(outcomes, upto - 1).is_reported() {
        reported_names(names, outcomes, upto - 1).push(names[upto - 1])
    } else {
        reported_names(names, outcomes, upto - 1)
    }
}

/// The counts of a summary: `+n` for what was installed, `^n` for what was
/// updated, `n` for what was left as it was; a count of zero is left out.
pub open spec fn count_parts(handled: nat, updated: nat, noop: nat) -> Seq<Seq<char>> {
    let first = if handled > 0 {
        seq!["+"@ + decimal(handled)]
    } else {
        Seq::empty()
    };
    let second = if updated > 0 {
        seq!["^"@ + decimal(updated)]
    } else {
        Seq::empty()
    };
    let third = if noop > 0 {
        seq![decimal(noop)]
    } else {
        Seq::empty()
    };
    first + second + third
}

/// A word, made plural for more than one.
pub open spec fn counted_word(word: Seq<char>, count: nat) -> Seq<char> {
    if count > 1 {
        word + "s"@
    } else {
        word
    }
}

/// The part of a summary on one kind of thing: the counts, the word for
/// it, and in brackets the names. `None` where there is nothing to name.
pub open spec fn summary_part(
    word: Seq<char>,
    handled: nat,
    updated: nat,
    noop: nat,
    names: Seq<Seq<char>>,
) -> Option<Seq<char>> {
    if names.len() == 0 || count_parts(handled, updated, noop).len() == 0 {
        None
    } else {
        Some(
            joined(count_parts(handled, updated, noop), ", "@) + " "@ + counted_word(
                word,
                names.len(),
            ) + " ("@ + joined(names, ", "@) + ")"@,
        )
    }
}

/// The parts that are there, in order.
pub open spec fn present_parts(first: Option<Seq<char>>, second: Option<Seq<char>>) -> Seq<
    Seq<char>,
> {
    let a = match first {
        Some(text) => seq![text],
        None => Seq::empty(),
    };
    let b = match second {
        Some(text) => seq![text],
        None => Seq::empty(),
    };
    a + b
}

/// The summary of a run: its parts joined by `and`, or `nothing done`.
pub open spec fn summary_text(first: Option<Seq<char>>, second: Option<Seq<char>>) -> Seq<char> {
    if present_parts(first, second).len() == 0 {
        "nothing done"@
    } else {
        joined(present_parts(first, second), " and "@)
    }
}

/// Writes the counts of a summary.
pub fn write_counts(handled: usize, updated: usize, noop: usize) -> (r: Vec<String>)
    ensures
        views(r@) == count_parts(handled as nat, updated as nat, noop as nat),
{
    let mut parts: Vec<String> = Vec::new();
    if handled > 0 {
        let mut text = String::from_str("+");
        text.append(decimal_text(handled as u64).as_str());
        parts.push(text);
    }
    if updated > 0 {
        let mut text = String::from_str("^");
        text.append(decimal_text(updated as u64).as_str());
        parts.push(text);
    }
    if noop > 0 {
        parts.push(decimal_text(noop as u64));
    }
    proof {
        assert(views(parts@) =~= count_parts(handled as nat, updated as nat, noop as nat));
    }
    parts
}

/// Writes the part of a summary on one kind of thing, with `names` as they
/// are to be listed.
pub fn write_summary_part(
    word: &str,
    handled: usize,
    updated: usize,
    noop: usize,
    names: &Vec<String>,
) -> (r: Option<String>)
    ensures
        optional_view(r) == summary_part(
            word@,
            handled as nat,
            updated as nat,
            noop as nat,
            views(names@),
        ),
{
    if names.len() == 0 {
        return None;
    }
    let counts = write_counts(handled, updated, noop);
    if counts.len() == 0 {
        return None;
    }
    let mut text = join(&counts, ", ");
    text.append(" ");
    text.append(word);
    if names.len() > 1 {
        text.append("s");
    }
    text.append(" (");
    text.append(join(names, ", ").as_str());
    text.append(")");
    Some(text)
}

/// Writes a summary from its two parts.
pub fn write_summary(first: Option<String>, second: Option<String>) -> (r: String)
    ensures
        r@ == summary_text(optional_view(first), optional_view(second)),
{
    let mut parts: Vec<String> = Vec::new();
    if let Some(text) = first {
        parts.push(text);
    }
    if let Some(text) = second {
        parts.push(text);
    }
    proof {
        assert(views(parts@) =~= present_parts(optional_view(first), optional_view(second)));
    }
    if parts.len() == 0 {
        String::from_str("nothing done")
    } else {
        join(&parts, " and ")
    }
}

/// Counts how often `kind` stands among `outcomes`.
pub fn count_outcomes(outcomes: &Vec<HomebrewHandled>, kind: HomebrewHandled) -> (r: usize)
    ensures
        r == count_of(outcomes@, kind, outcomes@.len() as int),
{
    let mut n: usize = 0;
    let mut i: usize = 0;
    while i < outcomes.len()
        invariant
            i <= outcomes.len(),
            n <= i,
            n == count_of(outcomes@, kind, i as int),
        decreases outcomes.len() - i,
    {
        if outcomes[i] == kind {
            n = n + 1;
        }
        i = i + 1;
    }
    n
}

/// The names of the items whose outcome is reported, in the order of the
/// items.
pub fn names_reported(names: &Vec<String>, outcomes: &Vec<HomebrewHandled>) -> (r: Vec<String>)
    ensures
        views(r@) == reported_names(views(names@), outcomes@, names@.len() as int),
{
    let mut out: Vec<String> = Vec::new();
    let mut i: usize = 0;
    proof {
        assert(views(out@) =~= reported_names(views(names@), outcomes@, 0));
    }
    while i < names.len()
        invariant
            i <= names.len(),
            views(out@) == reported_names(views(names@), outcomes@, i as int),
        decreases names.len() - i,
    {
        let ghost before = views(out@);
        if i < outcomes.len() && outcomes[i].reported() {
            out.push(names[i].clone());
            proof {
                assert(views(out@) =~= before.push(names@[i as int]@));
            }
        }
        i = i + 1;
    }
    out
}

/// Why an operation on the project's dependencies failed.
#[derive(Debug)]
pub enum UpError {
    /// A command of the package manager failed.
    Exec(String),
    /// The cache could not be updated.
    Cache(String),
    /// A tap cannot be removed because something still uses it.
    HomebrewTapInUse,
}

impl UpError {
    /// The words of the error.
    pub open spec fn text(self) -> Seq<char> {
        match self {
            UpError::Exec(message) => message@,
            UpError::Cache(message) => "cache: "@ + message@,
            UpError::HomebrewTapInUse => "tap is still in use"@,
        }
    }

    /// The words of the error.
    pub fn message(&self) -> (r: String)
        ensures
            r@ == self.text(),
    {
        match self {
            UpError::Exec(message) => message.clone(),
            UpError::Cache(message) => {
                let mut out = String::from_str("cache: ");
                out.append(message.as_str());
                out
            },
            UpError::HomebrewTapInUse => String::from_str("tap is still in use"),
        }
    }
}

/// The name under which the package manager knows a package: its name,
/// and behind an `@` its version where one is asked for.
pub open spec fn package_id_text(name: Seq<char>, version: Option<Seq<char>>) -> Seq<char> {
    match version {
        Some(version) => name + "@"@ + version,
        None => name,
    }
}

/// A package that a project asks for.
#[derive(Debug)]
pub struct HomebrewInstall {
    pub install_type: HomebrewInstallType,
    pub name: String,
    pub version: Option<String>,
}

impl Clone for HomebrewInstall {
    fn clone(&self) -> (r: Self)
        ensures
            r == *self,
    {
        HomebrewInstall {
            install_type: self.install_type,
            name: self.name.clone(),
            version: clone_optional(&self.version),
        }
    }
}

/// The option that tells the package manager which kind of package is
/// meant.
pub open spec fn kind_option(install_type: HomebrewInstallType) -> Seq<char> {
    match install_type {
        HomebrewInstallType::Cask => "--cask"@,
        HomebrewInstallType::Formula => "--formula"@,
    }
}

impl HomebrewInstall {
    /// The formula `name`, in whatever version the package manager has.
    pub fn new_formula(name: &str) -> (r: HomebrewInstall)
        ensures
            r.install_type == HomebrewInstallType::Formula,
            r.name@ == name@,
            r.version is None,
    {
        HomebrewInstall {
            install_type: HomebrewInstallType::Formula,
            name: String::from_str(name),
            version: None,
        }
    }

    /// The package that a record of the cache stands for: a cask for the
    /// record of a cask, else a formula.
    pub fn from_cache(cached: &InstalledResource) -> (r: HomebrewInstall)
        ensures
            r.install_type == if cached.kind == ResourceKind::Cask {
                HomebrewInstallType::Cask
            } else {
                HomebrewInstallType::Formula
            },
            r.name == cached.name,
            r.version == cached.version,
    {
        let install_type = match cached.kind {
            ResourceKind::Cask => HomebrewInstallType::Cask,
            _ => HomebrewInstallType::Formula,
        };
        HomebrewInstall {
            install_type,
            name: cached.name.clone(),
            version: clone_optional(&cached.version),
        }
    }

    /// The name under which the package manager knows the package.
    pub fn package_id(&self) -> (r: String)
        ensures
            r@ == package_id_text(self.name@, optional_view(self.version)),
    {
        let mut out = self.name.clone();
        if let Some(version) = &self.version {
            out.append("@");
            out.append(version.as_str());
        }
        out
    }

    pub fn name(&self) -> (r: String)
        ensures
            r == self.name,
    {
        self.name.clone()
    }

    pub fn version(&self) -> (r: Option<String>)
        ensures
            r == self.version,
    {
        clone_optional(&self.version)
    }

    pub fn is_cask(&self) -> (r: bool)
        ensures
            r == (self.install_type == HomebrewInstallType::Cask),
    {
        match self.install_type {
            HomebrewInstallType::Cask => true,
            HomebrewInstallType::Formula => false,
        }
    }

    /// The kind under which the package is tracked.
    pub fn kind(&self) -> (r: ResourceKind)
        ensures
            r == if self.install_type == HomebrewInstallType::Cask {
                ResourceKind::Cask
            } else {
                ResourceKind::Formula
            },
    {
        match self.install_type {
            HomebrewInstallType::Cask => ResourceKind::Cask,
            HomebrewInstallType::Formula => ResourceKind::Formula,
        }
    }

    /// The option that tells the package manager which kind of package
    /// this is.
    fn kind_argument(&self) -> (r: String)
        ensures
            r@ == kind_option(self.install_type),
    {
        match self.install_type {
            HomebrewInstallType::Cask => String::from_str("--cask"),
            HomebrewInstallType::Formula => String::from_str("--formula"),
        }
    }

    /// The command, kind and package in the words of the package manager.
    fn arguments(&self, command: &str) -> (r: Vec<String>)
        ensures
            views(r@) == seq![
                command@,
                kind_option(self.install_type),
                package_id_text(self.name@, optional_view(self.version)),
            ],
    {
        let mut out: Vec<String> = Vec::new();
        out.push(String::from_str(command));
        out.push(self.kind_argument());
        out.push(self.package_id());
        proof {
            assert(views(out@) =~= seq![
                command@,
                kind_option(self.install_type),
                package_id_text(self.name@, optional_view(self.version)),
            ]);
        }
        out
    }

    /// What to tell the package manager to find out whether the package is
    /// installed.
    pub fn list_arguments(&self) -> (r: Vec<String>)
        ensures
            views(r@) == seq![
                "list"@,
                kind_option(self.install_type),
                package_id_text(self.name@, optional_view(self.version)),
            ],
    {
        self.arguments("list")
    }

    /// What to tell the package manager to install the package, or to
    /// upgrade it where it is `installed` already.
    pub fn install_arguments(&self, installed: bool) -> (r: Vec<String>)
        ensures
            views(r@) == seq![
                if installed {
                    "upgrade"@
                } else {
                    "install"@
                },
                kind_option(self.install_type),
                package_id_text(self.name@, optional_view(self.version)),
            ],
    {
        if installed {
            self.arguments("upgrade")
        } else {
            self.arguments("install")
        }
    }

    /// What to tell the package manager to remove the package.
    pub fn uninstall_arguments(&self) -> (r: Vec<String>)
        ensures
            views(r@) == seq![
                "uninstall"@,
                kind_option(self.install_type),
                package_id_text(self.name@, optional_view(self.version)),
            ],
    {
        self.arguments("uninstall")
    }

    /// Whether there is nothing to do for a package that is `installed`:
    /// it is there, and in the very version that was asked for.
    pub fn is_settled(&self, installed: bool) -> (r: bool)
        ensures
            r == (installed && self.version is Some),
    {
        installed && self.version.is_some()
    }

    /// What an installation did about the package. One that did nothing
    /// left the package as it was, be it there or not: that is so for a
    /// package that was up to date, and for one whose command failed
    /// where failures are not surfaced. One that did something installed
    /// a package that was not there, and updated one that was.
    pub open spec fn outcome_of(installed: bool, did_something: bool) -> HomebrewHandled {
        if !did_something {
            HomebrewHandled::Noop
        } else if installed {
            HomebrewHandled::Updated
        } else {
            HomebrewHandled::Handled
        }
    }

    /// What an installation did about the package, given whether the
    /// package was `installed` before and whether the installation
    /// `did_something`.
    pub fn up_outcome(installed: bool, did_something: bool) -> (r: HomebrewHandled)
        ensures
            r == Self::outcome_of(installed, did_something),
            r == HomebrewHandled::Handled <==> !installed && did_something,
    {
        if !did_something {
            HomebrewHandled::Noop
        } else if installed {
            HomebrewHandled::Updated
        } else {
            HomebrewHandled::Handled
        }
    }

    /// Whether the cache is to note this tool as the one that installed the
    /// package: only where it did so in this run.
    pub fn was_handled(outcome: HomebrewHandled) -> (r: bool)
        ensures
            r == (outcome == HomebrewHandled::Handled),
    {
        match outcome {
            HomebrewHandled::Handled => true,
            _ => false,
        }
    }

    /// What a run of the package manager's install or upgrade command
    /// amounts to. A command that went through did something. One that
    /// failed is an error where failures are to be surfaced, and else
    /// counts as nothing done.
    pub open spec fn command_result(outcome: Result<(), UpError>, fail_on_upgrade: bool) -> Result<
        bool,
        UpError,
    > {
        match outcome {
            Ok(_) => Ok(true),
            Err(error) => if fail_on_upgrade {
                Err(error)
            } else {
                Ok(false)
            },
        }
    }

    /// What a run of the package manager's install or upgrade command
    /// amounts to.
    pub fn install_result(outcome: Result<(), UpError>, fail_on_upgrade: bool) -> (r: Result<
        bool,
        UpError,
    >)
        ensures
            r == Self::command_result(outcome, fail_on_upgrade),
    {
        match outcome {
            Ok(_) => Ok(true),
            Err(error) => {
                if fail_on_upgrade {
                    Err(error)
                } else {
                    Ok(false)
                }
            },
        }
    }
}

/// A tap that a project asks for.
#[derive(Debug)]
pub struct HomebrewTap {
    pub name: String,
    pub url: Option<String>,
}

impl Clone for HomebrewTap {
    fn clone(&self) -> (r: Self)
        ensures
            r == *self,
    {
        HomebrewTap { name: self.name.clone(), url: clone_optional(&self.url) }
    }
}

impl HomebrewTap {
    /// The tap `name`, from wherever the package manager finds it.
    pub fn from_name(name: &str) -> (r: HomebrewTap)
        ensures
            r.name@ == name@,
            r.url is None,
    {
        HomebrewTap { name: String::from_str(name), url: None }
    }

    /// What to tell the package manager to add the tap (`tap`) or to drop
    /// it.
    pub fn tap_arguments(&self, tap: bool) -> (r: Vec<String>)
        ensures
            views(r@) == seq![
                if tap {
                    "tap"@
                } else {
                    "untap"@
                },
                self.name@,
            ] + match self.url {
                Some(url) => seq![url@],
                None => Seq::<Seq<char>>::empty(),
            },
    {
        let mut out: Vec<String> = Vec::new();
        if tap {
            out.push(String::from_str("tap"));
        } else {
            out.push(String::from_str("untap"));
        }
        out.push(self.name.clone());
        if let Some(url) = &self.url {
            out.push(url.clone());
        }
        proof {
            assert(views(out@) =~= seq![
                if tap {
                    "tap"@
                } else {
                    "untap"@
                },
                self.name@,
            ] + match self.url {
                Some(url) => seq![url@],
                None => Seq::<Seq<char>>::empty(),
            });
        }
        out
    }

    /// What a run did about the tap: nothing where it was `tapped`
    /// already, else it added it.
    pub fn up_outcome(tapped: bool) -> (r: HomebrewHandled)
        ensures
            r == if tapped {
                HomebrewHandled::Noop
            } else {
                HomebrewHandled::Handled
            },
    {
        if tapped {
            HomebrewHandled::Noop
        } else {
            HomebrewHandled::Handled
        }
    }
}

/// The names of `taps`, in order.
pub open spec fn tap_names(taps: Seq<HomebrewTap>) -> Seq<Seq<char>> {
    Seq::new(taps.len(), |i: int| taps[i].name@)
}

/// The names under which the package manager knows `installs`, in order.
pub open spec fn package_ids(installs: Seq<HomebrewInstall>) -> Seq<Seq<char>> {
    Seq::new(
        installs.len(),
        |i: int| package_id_text(installs[i].name@, optional_view(installs[i].version)),
    )
}

/// The packages and the taps that a project asks for.
#[derive(Debug)]
pub struct UpConfigHomebrew {
    pub install: Vec<HomebrewInstall>,
    pub tap: Vec<HomebrewTap>,
}

/// The part of a run's summary on things of one kind, with their names as
/// they are to be listed.
pub open spec fn up_part(
    word: Seq<char>,
    outcomes: Seq<HomebrewHandled>,
    listed: Seq<Seq<char>>,
) -> Option<Seq<char>> {
    summary_part(
        word,
        count_of(outcomes, HomebrewHandled::Handled, outcomes.len() as int),
        count_of(outcomes, HomebrewHandled::Updated, outcomes.len() as int),
        count_of(outcomes, HomebrewHandled::Noop, outcomes.len() as int),
        listed,
    )
}

impl UpConfigHomebrew {
    /// Whether `message` sums up a run in which the taps ended as
    /// `tap_outcomes` say and the packages as `install_outcomes` say: for
    /// taps and then for formulas the counts of what was installed,
    /// updated and left alone, and the sorted names of those that were
    /// dealt with.
    pub open spec fn sums_up(
        self,
        tap_outcomes: Seq<HomebrewHandled>,
        install_outcomes: Seq<HomebrewHandled>,
        message: Seq<char>,
    ) -> bool {
        exists|taps: Seq<Seq<char>>, installs: Seq<Seq<char>>|
            {
                &&& #[trigger] is_sorted_arrangement(
                    taps,
                    reported_names(tap_names(self.tap@), tap_outcomes, self.tap@.len() as int),
                )
                &&& #[trigger] is_sorted_arrangement(
                    installs,
                    reported_names(
                        package_ids(self.install@),
                        install_outcomes,
                        self.install@.len() as int,
                    ),
                )
                &&& message == summary_text(
                    up_part("tap"@, tap_outcomes, taps),
                    up_part("formula"@, install_outcomes, installs),
                )
            }
    }

    /// Sums up a run, given for each tap and for each package what was
    /// done about it (one without an entry counts as not dealt with).
    pub fn get_up_message(
        &self,
        tap_outcomes: &Vec<HomebrewHandled>,
        install_outcomes: &Vec<HomebrewHandled>,
    ) -> (r: String)
        ensures
            self.sums_up(tap_outcomes@, install_outcomes@, r@),
    {
        let mut names: Vec<String> = Vec::new();
        let mut i: usize = 0;
        while i < self.tap.len()
            invariant
                i <= self.tap.len(),
                names@.len() == i,
                forall|j: int| 0 <= j < i ==> (#[trigger] names@[j])@ == self.tap@[j].name@,
            decreases self.tap.len() - i,
        {
            names.push(self.tap[i].name.clone());
            i = i + 1;
        }
        let mut ids: Vec<String> = Vec::new();
        let mut k: usize = 0;
        while k < self.install.len()
            invariant
                k <= self.install.len(),
                ids@.len() == k,
                forall|j: int|
                    0 <= j < k ==> (#[trigger] ids@[j])@ == package_id_text(
                        self.install@[j].name@,
                        optional_view(self.install@[j].version),
                    ),
            decreases self.install.len() - k,
        {
            ids.push(self.install[k].package_id());
            k = k + 1;
        }
        proof {
            assert(views(names@) =~= tap_names(self.tap@));
            assert(views(ids@) =~= package_ids(self.install@));
        }
        let taps = sorted_names(names_reported(&names, tap_outcomes));
        let installs = sorted_names(names_reported(&ids, install_outcomes));
        let first = write_summary_part(
            "tap",
            count_outcomes(tap_outcomes, HomebrewHandled::Handled),
            count_outcomes(tap_outcomes, HomebrewHandled::Updated),
            count_outcomes(tap_outcomes, HomebrewHandled::Noop),
            &taps,
        );
        let second = write_summary_part(
            "formula",
            count_outcomes(install_outcomes, HomebrewHandled::Handled),
            count_outcomes(install_outcomes, HomebrewHandled::Updated),
            count_outcomes(install_outcomes, HomebrewHandled::Noop),
            &installs,
        );
        let message = write_summary(first, second);
        proof {
            assert(is_sorted_arrangement(
                views(taps@),
                reported_names(tap_names(self.tap@), tap_outcomes@, self.tap@.len() as int),
            ));
            assert(is_sorted_arrangement(
                views(installs@),
                reported_names(
                    package_ids(self.install@),
                    install_outcomes@,
                    self.install@.len() as int,
                ),
            ));
        }
        message
    }
}

/// What is known of the packages and taps on this machine, and of the
/// working directories that require them.
#[derive(Debug)]
pub struct HomebrewOperationCache {
    pub installed: Registry,
    pub tapped: Registry,
    pub update_cache: HomebrewOperationUpdateCache,
    pub updated_at: Timestamp,
}

impl CacheObject for HomebrewOperationCache {
    open spec fn updated_at(&self) -> Timestamp {
        self.updated_at
    }

    open spec fn same_content(&self, other: &Self) -> bool {
        self.installed == other.installed && self.tapped == other.tapped && self.update_cache
            == other.update_cache
    }

    open spec fn holds_nothing(&self) -> bool {
        self.installed.records@.len() == 0 && self.tapped.records@.len() == 0
            && self.update_cache.is_blank()
    }

    fn new_empty() -> (r: Self) {
        HomebrewOperationCache {
            installed: Registry::new(),
            tapped: Registry::new(),
            update_cache: HomebrewOperationUpdateCache::new(),
            updated_at: Timestamp::origin(),
        }
    }

    fn stamp(&mut self, now: Timestamp) {
        self.updated_at = now;
    }

    fn last_updated(&self) -> (r: Timestamp) {
        self.updated_at
    }
}

/// What a cleanup did.
#[derive(Debug)]
pub struct CleanupReport {
    /// Whether the cache changed.
    pub changed: bool,
    /// What the sweep of the packages did.
    pub installs: SweepReport<UpError>,
    /// What the sweep of the taps did; `None` where it was never reached
    /// because a package could not be removed.
    pub taps: Option<SweepReport<UpError>>,
}

impl HomebrewOperationCache {
    /// Whether the cache holds nothing.
    pub fn is_empty(&self) -> (r: bool)
        ensures
            r == self.holds_nothing(),
    {
        self.installed.records.len() == 0 && self.tapped.records.len() == 0
            && self.update_cache.is_empty()
    }

    /// Notes that the working directory `workdir_id` requires the package
    /// `install_name` during the run of `clock`; `installed` says that
    /// this tool installed it. Says whether the cache changed; where it
    /// did, it is marked as changed at the start of the run.
    pub fn add_install(
        &mut self,
        workdir_id: &str,
        install_name: &str,
        install_version: Option<String>,
        is_cask: bool,
        installed: bool,
        clock: &RunClock,
    ) -> (r: bool)
        ensures
            Registry::after_add(
                old(self).installed.records@,
                final(self).installed.records@,
                r,
                workdir_id@,
                ResourceKey {
                    kind: if is_cask {
                        ResourceKind::Cask
                    } else {
                        ResourceKind::Formula
                    },
                    name: install_name@,
                    version: optional_view(install_version),
                },
                installed,
                *clock,
            ),
            final(self).tapped == old(self).tapped,
            final(self).update_cache == old(self).update_cache,
            final(self).updated_at == if r {
                clock.now
            } else {
                old(self).updated_at
            },
    {
        let kind = if is_cask {
            ResourceKind::Cask
        } else {
            ResourceKind::Formula
        };
        let changed = self.installed.add(
            workdir_id,
            kind,
            install_name,
            install_version,
            installed,
            clock,
        );
        if changed {
            self.updated_at = clock.now;
        }
        changed
    }

    /// Notes that the working directory `workdir_id` requires the tap
    /// `tap_name` during the run of `clock`; `tapped` says that this tool
    /// added it. Says whether the cache changed; where it did, it is
    /// marked as changed at the start of the run.
    pub fn add_tap(&mut self, workdir_id: &str, tap_name: &str, tapped: bool, clock: &RunClock) -> (r:
        bool)
        ensures
            Registry::after_add(
                old(self).tapped.records@,
                final(self).tapped.records@,
                r,
                workdir_id@,
                ResourceKey { kind: ResourceKind::Tap, name: tap_name@, version: None },
                tapped,
                *clock,
            ),
            final(self).installed == old(self).installed,
            final(self).update_cache == old(self).update_cache,
            final(self).updated_at == if r {
                clock.now
            } else {
                old(self).updated_at
            },
    {
        let changed = self.tapped.add(workdir_id, ResourceKind::Tap, tap_name, None, tapped, clock);
        if changed {
            self.updated_at = clock.now;
        }
        changed
    }

    /// Notes that the working directory `workdir_id` requires nothing any
    /// more: it leaves every record of a package or a tap. The records
    /// stay. Says whether the cache changed.
    pub fn down(&mut self, workdir_id: &str) -> (r: bool)
        ensures
            Registry::after_release(
                old(self).installed.records@,
                final(self).installed.records@,
                workdir_id@,
                None,
            ),
            Registry::after_release(
                old(self).tapped.records@,
                final(self).tapped.records@,
                workdir_id@,
                None,
            ),
            final(self).updated_at == old(self).updated_at,
            final(self).update_cache == old(self).update_cache,
            r == (any_released(old(self).installed.records@, workdir_id@, None) || any_released(
                old(self).tapped.records@,
                workdir_id@,
                None,
            )),
    {
        let installs = self.installed.release(workdir_id);
        let taps = self.tapped.release(workdir_id);
        installs || taps
    }

    /// Whether a cleanup for `workdir_id` in the run of `clock` may have
    /// turned the cache `before` into `after` and given `report`. First
    /// the working directory leaves every stale record. Then the packages
    /// are swept, and what was remembered of those that left is
    /// forgotten; after them the taps are swept, unless the sweep of the
    /// packages was halted.
    pub open spec fn cleaned_up<
        F: Fn(&InstalledResource) -> Removal<UpError>,
        G: Fn(&InstalledResource) -> Removal<UpError>,
    >(
        before: HomebrewOperationCache,
        after: HomebrewOperationCache,
        workdir_id: Seq<char>,
        clock: RunClock,
        uninstall: F,
        untap: G,
        report: CleanupReport,
    ) -> bool {
        exists|
            released_installs: Seq<InstalledResource>,
            released_taps: Seq<InstalledResource>,
            halted_at: Option<int>,
            removed: Seq<bool>,
        |
            {
                &&& #[trigger] Registry::after_release(
                    before.installed.records@,
                    released_installs,
                    workdir_id,
                    Some(clock),
                )
                &&& #[trigger] Registry::after_release(
                    before.tapped.records@,
                    released_taps,
                    workdir_id,
                    Some(clock),
                )
                &&& after.update_cache.installs@ == without_records(
                    before.update_cache.installs@,
                    report.installs.removed@,
                    report.installs.removed@.len() as int,
                )
                &&& after.update_cache.bin_paths@ == without_records(
                    before.update_cache.bin_paths@,
                    report.installs.removed@,
                    report.installs.removed@.len() as int,
                )
                &&& after.update_cache.homebrew_updated_at
                    == before.update_cache.homebrew_updated_at
                &&& after.update_cache.homebrew_bin_path == before.update_cache.homebrew_bin_path
                &&& #[trigger] sweep_outcome(
                    uninstall,
                    released_installs,
                    after.installed.records@,
                    report.installs,
                    halted_at,
                    removed,
                )
                &&& match report.taps {
                    Some(taps) => report.installs.error is None && exists|
                        tap_halted_at: Option<int>,
                        untapped: Seq<bool>,
                    | #[trigger]
                        sweep_outcome(
                            untap,
                            released_taps,
                            after.tapped.records@,
                            taps,
                            tap_halted_at,
                            untapped,
                        ),
                    None => report.installs.error is Some && after.tapped.records@
                        == released_taps,
                }
            }
    }

    /// Cleans up for the working directory `workdir_id` in the run of
    /// `clock`. The working directory leaves every record that it did not
    /// require again in this run. Then each package that nobody requires
    /// and that this tool installed is handed to `uninstall`, and each
    /// such tap to `untap`, last record first; a record goes where the
    /// removal did not fail. A failed removal ends the cleanup; what was
    /// removed until then stays removed.
    pub fn cleanup<
        F: Fn(&InstalledResource) -> Removal<UpError>,
        G: Fn(&InstalledResource) -> Removal<UpError>,
    >(&mut self, workdir_id: &str, clock: &RunClock, uninstall: F, untap: G) -> (report:
        CleanupReport)
        requires
            forall|record: &InstalledResource| call_requires(uninstall, (record,)),
            forall|record: &InstalledResource| call_requires(untap, (record,)),
        ensures
            Self::cleaned_up(
                *old(self),
                *final(self),
                workdir_id@,
                *clock,
                uninstall,
                untap,
                report,
            ),
            final(self).updated_at == old(self).updated_at,
            report.changed == ({
                ||| any_released(old(self).installed.records@, workdir_id@, Some(*clock))
                ||| any_released(old(self).tapped.records@, workdir_id@, Some(*clock))
                ||| final(self).installed.records@.len() != old(self).installed.records@.len()
                ||| final(self).tapped.records@.len() != old(self).tapped.records@.len()
            }),
    {
        let ghost installed = self.installed.records@;
        let ghost tapped = self.tapped.records@;
        let released_installs = self.installed.release_stale(workdir_id, clock);
        let released_taps = self.tapped.release_stale(workdir_id, clock);
        let ghost mid_installed = self.installed.records@;
        let ghost mid_tapped = self.tapped.records@;
        let installs = self.installed.sweep(uninstall);
        self.update_cache.removed_records(&installs.removed);
        let mut changed = released_installs || released_taps || installs.changed;
        if installs.error.is_some() {
            let report = CleanupReport { changed, installs, taps: None };
            proof {
                let (halted_at, removed) = choose|halted_at: Option<int>, removed: Seq<bool>| #[trigger]
                    sweep_outcome(
                        uninstall,
                        mid_installed,
                        self.installed.records@,
                        report.installs,
                        halted_at,
                        removed,
                    );
                assert(Registry::after_release(installed, mid_installed, workdir_id@, Some(*clock)));
                assert(Registry::after_release(tapped, mid_tapped, workdir_id@, Some(*clock)));
            }
            return report;
        }
        let taps = self.tapped.sweep(untap);
        changed = changed || taps.changed;
        let report = CleanupReport { changed, installs, taps: Some(taps) };
        proof {
            let (halted_at, removed) = choose|halted_at: Option<int>, removed: Seq<bool>| #[trigger]
                sweep_outcome(
                    uninstall,
                    mid_installed,
                    self.installed.records@,
                    report.installs,
                    halted_at,
                    removed,
                );
            let (tap_halted_at, untapped) = choose|tap_halted_at: Option<int>, untapped: Seq<bool>| #[trigger]
                sweep_outcome(
                    untap,
                    mid_tapped,
                    self.tapped.records@,
                    taps,
                    tap_halted_at,
                    untapped,
                );
            assert(Registry::after_release(installed, mid_installed, workdir_id@, Some(*clock)));
            assert(Registry::after_release(tapped, mid_tapped, workdir_id@, Some(*clock)));
        }
        report
    }
}

/// The part of a cleanup's summary on things of one kind: how many were
/// removed, the word for them, and in brackets their names. `None` where
/// none was removed.
pub open spec fn removal_part(word: Seq<char>, names: Seq<Seq<char>>) -> Option<Seq<char>> {
    if names.len() == 0 {
        None
    } else {
        Some(
            "-"@ + decimal(names.len()) + " "@ + counted_word(word, names.len()) + " ("@ + joined(
                names,
                ", "@,
            ) + ")"@,
        )
    }
}

/// Writes the part of a cleanup's summary on things of one kind, with
/// `names` as they are to be listed.
pub fn write_removal_part(word: &str, names: &Vec<String>) -> (r: Option<String>)
    ensures
        optional_view(r) == removal_part(word@, views(names@)),
{
    if names.len() == 0 {
        return None;
    }
    let mut text = String::from_str("-");
    text.append(decimal_text(names.len() as u64).as_str());
    text.append(" ");
    text.append(word);
    if names.len() > 1 {
        text.append("s");
    }
    text.append(" (");
    text.append(join(names, ", ").as_str());
    text.append(")");
    Some(text)
}

/// The summary of a cleanup that removed the taps and the formulas whose
/// parts are given: the parts joined by `and`, or `None` without a part.
pub open spec fn cleanup_text(taps: Option<Seq<char>>, formulas: Option<Seq<char>>) -> Option<
    Seq<char>,
> {
    if present_parts(taps, formulas).len() == 0 {
        None
    } else {
        Some(joined(present_parts(taps, formulas), " and "@))
    }
}

/// What a cleanup amounts to, given its summary and the failure that
/// ended it, if one did. Without a failure it is the summary. With one it
/// is the failure, and where something was removed before it, an error
/// that says so first.
pub fn cleanup_result(summary: Option<String>, error: Option<UpError>) -> (r: Result<
    Option<String>,
    UpError,
>)
    ensures
        match error {
            None => r == Ok::<Option<String>, UpError>(summary),
            Some(failure) => match summary {
                None => r == Err::<Option<String>, UpError>(failure),
                Some(text) => r matches Err(UpError::Exec(message)) && message@ == text@ + "; "@
                    + failure.text(),
            },
        },
{
    match error {
        None => Ok(summary),
        Some(failure) => match summary {
            None => Err(failure),
            Some(text) => {
                let mut message = text;
                message.append("; ");
                message.append(failure.message().as_str());
                Err(UpError::Exec(message))
            },
        },
    }
}

impl CleanupReport {
    /// The failure that ended the cleanup, if one did.
    pub open spec fn failure(self) -> Option<UpError> {
        match self.taps {
            Some(taps) => taps.error,
            None => self.installs.error,
        }
    }

    /// The names of the taps that were removed.
    pub open spec fn removed_taps(self) -> Seq<Seq<char>> {
        match self.taps {
            Some(taps) => views(taps.handled@),
            None => Seq::empty(),
        }
    }

    /// Whether `outcome` is what the cleanup amounts to: the summary of
    /// the taps and formulas that were removed, names sorted, or the
    /// failure that ended it, behind the summary where there is one.
    pub open spec fn amounts_to(self, outcome: Result<Option<String>, UpError>) -> bool {
        exists|taps: Seq<Seq<char>>, formulas: Seq<Seq<char>>|
            {
                &&& #[trigger] is_sorted_arrangement(taps, self.removed_taps())
                &&& #[trigger] is_sorted_arrangement(formulas, views(self.installs.handled@))
                &&& {
                    let summary = cleanup_text(
                        removal_part("tap"@, taps),
                        removal_part("formula"@, formulas),
                    );
                    match self.failure() {
                        None => outcome matches Ok(text) && optional_view(text) == summary,
                        Some(failure) => match summary {
                            None => outcome == Err::<Option<String>, UpError>(failure),
                            Some(text) => outcome matches Err(UpError::Exec(message)) && message@
                                == text + "; "@ + failure.text(),
                        },
                    }
                }
            }
    }

    /// What the cleanup amounts to.
    pub fn into_result(self) -> (r: Result<Option<String>, UpError>)
        ensures
            self.amounts_to(r),
    {
        let CleanupReport { changed: _, installs, taps } = self;
        let SweepReport { handled: install_names, removed: _, error: install_error, changed: _ } =
            installs;
        let (tap_names, error) = match taps {
            Some(report) => {
                let SweepReport { handled, removed: _, error, changed: _ } = report;
                (handled, error)
            },
            None => (Vec::new(), install_error),
        };
        proof {
            assert(views(tap_names@) =~= self.removed_taps());
        }
        let sorted_taps = sorted_names(tap_names);
        let sorted_formulas = sorted_names(install_names);
        let first = write_removal_part("tap", &sorted_taps);
        let second = write_removal_part("formula", &sorted_formulas);
        let mut parts: Vec<String> = Vec::new();
        if let Some(text) = first {
            parts.push(text);
        }
        if let Some(text) = second {
            parts.push(text);
        }
        proof {
            assert(views(parts@) =~= present_parts(optional_view(first), optional_view(second)));
        }
        let summary = if parts.len() == 0 {
            None
        } else {
            Some(join(&parts, " and "))
        };
        let r = cleanup_result(summary, error);
        proof {
            assert(is_sorted_arrangement(views(sorted_taps@), self.removed_taps()));
            assert(is_sorted_arrangement(views(sorted_formulas@), views(self.installs.handled@)));
        }
        r
    }
}

/// The tap into which this tool extracts the packages of versions that
/// the package manager no longer offers.
pub open spec fn local_tap() -> Seq<char> {
    "omni/local"@
}

/// The file that the package manager keeps for a package of the local
/// tap: the tap's directory, the directory of the kind, and the package's
/// name with `.rb`.
pub open spec fn local_tap_file(install_type: HomebrewInstallType, package: Seq<char>) -> Seq<char> {
    "omni/homebrew-local/"@ + match install_type {
        HomebrewInstallType::Cask => "Cask"@,
        HomebrewInstallType::Formula => "Formula"@,
    } + "/"@ + package + ".rb"@
}

/// A step of making a package of a given version available.
#[derive(Debug, Clone, Copy, PartialEq, Eq, Structural)]
pub enum ExtractStep {
    /// Ask whether the package manager knows the package as it is.
    CheckFormula,
    /// Ask whether the local tap exists.
    CheckLocalTap,
    /// Create the local tap.
    CreateLocalTap,
    /// Bring the package manager's own data up to date.
    UpdateHomebrew,
    /// Extract the package into the local tap.
    Extract,
    /// The package is available.
    Finished,
    /// A step failed.
    Failed,
}

/// What is known when a package is extracted.
#[derive(Debug, Clone, Copy, PartialEq, Eq, Structural)]
pub struct ExtractOptions {
    /// Whether the package manager's data is to be brought up to date
    /// first.
    pub needs_update: bool,
    /// How an earlier update in this run ended, if there was one.
    pub updated: Option<bool>,
}

/// The step that follows once the local tap is there.
pub open spec fn step_after_tap(options: ExtractOptions) -> ExtractStep {
    if options.needs_update {
        match options.updated {
            None => ExtractStep::UpdateHomebrew,
            Some(true) => ExtractStep::Extract,
            Some(false) => ExtractStep::Failed,
        }
    } else {
        ExtractStep::Extract
    }
}

/// The step that follows `step`, given whether it `succeeded`: whether the
/// package or the tap was found, or the command went through.
pub open spec fn step_after(step: ExtractStep, succeeded: bool, options: ExtractOptions) -> ExtractStep {
    match step {
        ExtractStep::CheckFormula => if succeeded {
            ExtractStep::Finished
        } else {
            ExtractStep::CheckLocalTap
        },
        ExtractStep::CheckLocalTap => if succeeded {
            step_after_tap(options)
        } else {
            ExtractStep::CreateLocalTap
        },
        ExtractStep::CreateLocalTap => if succeeded {
            step_after_tap(options)
        } else {
            ExtractStep::Failed
        },
        ExtractStep::UpdateHomebrew => if succeeded {
            ExtractStep::Extract
        } else {
            ExtractStep::Failed
        },
        ExtractStep::Extract => if succeeded {
            ExtractStep::Finished
        } else {
            ExtractStep::Failed
        },
        ExtractStep::Finished => ExtractStep::Finished,
        ExtractStep::Failed => ExtractStep::Failed,
    }
}

/// How many steps can at most follow `step`.
pub open spec fn steps_left(step: ExtractStep) -> nat {
    match step {
        ExtractStep::CheckFormula => 5,
        ExtractStep::CheckLocalTap => 4,
        ExtractStep::CreateLocalTap => 3,
        ExtractStep::UpdateHomebrew => 2,
        ExtractStep::Extract => 1,
        ExtractStep::Finished => 0,
        ExtractStep::Failed => 0,
    }
}

/// Every step leads closer to the end: extracting a package takes at most
/// five steps.
pub proof fn lemma_extraction_ends(step: ExtractStep, succeeded: bool, options: ExtractOptions)
    requires
        step != ExtractStep::Finished,
        step != ExtractStep::Failed,
    ensures
        steps_left(step_after(step, succeeded, options)) < steps_left(step),
{
}

impl ExtractStep {
    /// Whether nothing is left to do.
    pub fn is_final(&self) -> (r: bool)
        ensures
            r == (*self == ExtractStep::Finished || *self == ExtractStep::Failed),
    {
        match self {
            ExtractStep::Finished => true,
            ExtractStep::Failed => true,
            _ => false,
        }
    }

    /// The step that follows this one, given whether it `succeeded`.
    pub fn next(&self, succeeded: bool, options: &ExtractOptions) -> (r: ExtractStep)
        ensures
            r == step_after(*self, succeeded, *options),
    {
        let after_tap = if options.needs_update {
            match options.updated {
                None => ExtractStep::UpdateHomebrew,
                Some(true) => ExtractStep::Extract,
                Some(false) => ExtractStep::Failed,
            }
        } else {
            ExtractStep::Extract
        };
        match self {
            ExtractStep::CheckFormula => if succeeded {
                ExtractStep::Finished
            } else {
                ExtractStep::CheckLocalTap
            },
            ExtractStep::CheckLocalTap => if succeeded {
                after_tap
            } else {
                ExtractStep::CreateLocalTap
            },
            ExtractStep::CreateLocalTap => if succeeded {
                after_tap
            } else {
                ExtractStep::Failed
            },
            ExtractStep::UpdateHomebrew => if succeeded {
                ExtractStep::Extract
            } else {
                ExtractStep::Failed
            },
            ExtractStep::Extract => if succeeded {
                ExtractStep::Finished
            } else {
                ExtractStep::Failed
            },
            ExtractStep::Finished => ExtractStep::Finished,
            ExtractStep::Failed => ExtractStep::Failed,
        }
    }
}

/// What is to be done to install or upgrade a package.
#[derive(Debug, Clone, Copy, PartialEq, Eq, Structural)]
pub enum InstallPlan {
    /// Make the package available, then install it.
    Install,
    /// The package was brought up to date not long ago: leave it.
    UpToDate,
    /// Upgrade the package.
    Upgrade,
}

impl HomebrewInstall {
    /// What is to be done about the package: one that is not `installed`
    /// is installed; one that is, is upgraded, unless the cache is read
    /// and says that no update is due.
    pub fn plan(installed: bool, read_cache: bool, update_due: bool) -> (r: InstallPlan)
        ensures
            r == if !installed {
                InstallPlan::Install
            } else if read_cache && !update_due {
                InstallPlan::UpToDate
            } else {
                InstallPlan::Upgrade
            },
    {
        if !installed {
            InstallPlan::Install
        } else if read_cache && !update_due {
            InstallPlan::UpToDate
        } else {
            InstallPlan::Upgrade
        }
    }

    /// The first step of making the package available: none for a package
    /// in whatever version the package manager has.
    pub fn first_extract_step(&self) -> (r: ExtractStep)
        ensures
            r == if self.version is None {
                ExtractStep::Finished
            } else {
                ExtractStep::CheckFormula
            },
    {
        if self.version.is_none() {
            ExtractStep::Finished
        } else {
            ExtractStep::CheckFormula
        }
    }

    /// What to tell the package manager to extract the package into the
    /// local tap; `None` for a package without a version.
    pub fn extract_arguments(&self) -> (r: Option<Vec<String>>)
        ensures
            match self.version {
                Some(version) => r matches Some(arguments) && views(arguments@) == seq![
                    "extract"@,
                    "--version"@,
                    version@,
                    self.name@,
                    local_tap(),
                ],
                None => r is None,
            },
    {
        match &self.version {
            Some(version) => {
                let mut out: Vec<String> = Vec::new();
                out.push(String::from_str("extract"));
                out.push(String::from_str("--version"));
                out.push(version.clone());
                out.push(self.name.clone());
                out.push(String::from_str("omni/local"));
                proof {
                    assert(views(out@) =~= seq![
                        "extract"@,
                        "--version"@,
                        version@,
                        self.name@,
                        local_tap(),
                    ]);
                }
                Some(out)
            },
            None => None,
        }
    }

    /// Whether the package lives in the local tap, given the file that the
    /// package manager names for it: only a package of a given version
    /// does, and only where that file is the one of the local tap.
    pub fn is_in_local_tap(&self, tapped_file: Option<&str>) -> (r: bool)
        ensures
            r == self.in_local_tap(
                match tapped_file {
                    Some(file) => Some(file@),
                    None => None,
                },
            ),
    {
        if self.version.is_none() {
            return false;
        }
        match tapped_file {
            Some(file) => {
                let mut expected = String::from_str("omni/homebrew-local/");
                match self.install_type {
                    HomebrewInstallType::Cask => expected.append("Cask"),
                    HomebrewInstallType::Formula => expected.append("Formula"),
                }
                expected.append("/");
                expected.append(self.package_id().as_str());
                expected.append(".rb");
                ends_with(file, expected.as_str())
            },
            None => false,
        }
    }

    /// The version under which the package is written down: its version,
    /// or `latest` without one.
    pub fn version_or_latest(&self) -> (r: String)
        ensures
            r@ == match self.version {
                Some(version) => version@,
                None => "latest"@,
            },
    {
        match &self.version {
            Some(version) => version.clone(),
            None => String::from_str("latest"),
        }
    }
}

/// Whether one of the directories of `path` is hidden: the path, or what
/// follows one of its `/`, starts with a dot.
pub open spec fn hidden_component(path: Seq<char>) -> bool {
    exists|i: int|
        0 <= i < path.len() && #[trigger] path[i] == '.' && (i == 0 || path[i - 1] == '/')
}

/// Decides `hidden_component`.
pub fn has_hidden_component(path: &str) -> (r: bool)
    ensures
        r == hidden_component(path@),
{
    let chars = characters(path);
    let mut i: usize = 0;
    while i < chars.len()
        invariant
            i <= chars.len(),
            chars@ == path@,
            forall|j: int|
                0 <= j < i ==> !(#[trigger] path@[j] == '.' && (j == 0 || path@[j - 1] == '/')),
        decreases chars.len() - i,
    {
        if chars[i] == '.' && (i == 0 || chars[i - 1] == '/') {
            return true;
        }
        i = i + 1;
    }
    false
}

/// Whether a file of this name is a command to put on the path: one
/// without a dot in its name.
pub fn is_command_name(file_name: &str) -> (r: bool)
    ensures
        r == !file_name@.contains('.'),
{
    !contains_char(file_name, '.')
}

impl HomebrewTap {
    /// Whether the tap is among the taps that the package manager lists.
    pub fn is_listed(&self, listed: &Vec<String>) -> (r: bool)
        ensures
            r == views(listed@).contains(self.name@),
    {
        let mut i: usize = 0;
        while i < listed.len()
            invariant
                i <= listed.len(),
                forall|j: int| 0 <= j < i ==> listed@[j]@ != self.name@,
            decreases listed.len() - i,
        {
            if same_text(listed[i].as_str(), self.name.as_str()) {
                assert(views(listed@)[i as int] == self.name@);
                return true;
            }
            i = i + 1;
        }
        false
    }
}

/// What a command that went through, or did not, makes of a tap or a
/// package that was not there: it was installed, or the run failed.
pub open spec fn installed_or_failed(outcome: Result<(), UpError>) -> Result<
    HomebrewHandled,
    UpError,
> {
    match outcome {
        Ok(_) => Ok(HomebrewHandled::Handled),
        Err(error) => Err(error),
    }
}

/// What a command that went through, or did not, makes of the removal of
/// a resource: it was removed, or the removal failed.
pub open spec fn removed_or_failed(outcome: Result<(), UpError>) -> Removal<UpError> {
    match outcome {
        Ok(_) => Removal::Removed,
        Err(error) => Removal::Failed(error),
    }
}

impl HomebrewTap {
    /// Sees to it that the tap is there: one that is `tapped` already is
    /// left alone, another is added by `tap`.
    pub fn up<F: FnOnce() -> Result<(), UpError>>(&self, tapped: bool, tap: F) -> (r: Result<
        HomebrewHandled,
        UpError,
    >)
        requires
            call_requires(tap, ()),
        ensures
            tapped ==> r == Ok::<HomebrewHandled, UpError>(HomebrewHandled::Noop),
            !tapped ==> exists|outcome: Result<(), UpError>|
                #[trigger] call_ensures(tap, (), outcome) && r == installed_or_failed(outcome),
    {
        if tapped {
            return Ok(HomebrewHandled::Noop);
        }
        let outcome = tap();
        proof {
            assert(call_ensures(tap, (), outcome));
        }
        match outcome {
            Ok(_) => Ok(HomebrewHandled::Handled),
            Err(error) => Err(error),
        }
    }

    /// Removes the tap from the machine with `untap`, unless it is not
    /// `tapped`, or `in_use`, which is asked only of a tap that is there,
    /// says that something still uses it: then it is left as it is.
    pub fn down<U: FnOnce() -> bool, F: FnOnce() -> Result<(), UpError>>(
        &self,
        tapped: bool,
        in_use: U,
        untap: F,
    ) -> (r: Removal<UpError>)
        requires
            call_requires(in_use, ()),
            call_requires(untap, ()),
        ensures
            !tapped ==> r is Skipped,
            tapped ==> exists|used: bool|
                #[trigger] call_ensures(in_use, (), used) && if used {
                    r is Skipped
                } else {
                    exists|outcome: Result<(), UpError>|
                        #[trigger] call_ensures(untap, (), outcome) && r == removed_or_failed(
                            outcome,
                        )
                },
    {
        if !tapped {
            return Removal::Skipped;
        }
        let used = in_use();
        proof {
            assert(call_ensures(in_use, (), used));
        }
        if used {
            return Removal::Skipped;
        }
        let outcome = untap();
        proof {
            assert(call_ensures(untap, (), outcome));
        }
        match outcome {
            Ok(_) => Removal::Removed,
            Err(error) => Removal::Failed(error),
        }
    }
}

/// What an installation that says whether it did something, or failed,
/// makes of a package that was `installed` or not: its failure is the
/// result, and else the package counts as `outcome_of` says.
pub open spec fn package_outcome(installed: bool, outcome: Result<bool, UpError>) -> Result<
    HomebrewHandled,
    UpError,
> {
    match outcome {
        Ok(did_something) => Ok(HomebrewInstall::outcome_of(installed, did_something)),
        Err(error) => Err(error),
    }
}

/// A command that failed without the failure being surfaced leaves the
/// package as it was: it does not count as installed or updated by this
/// tool, whether it was there before or not.
pub proof fn lemma_unsurfaced_failure_is_no_installation(installed: bool, error: UpError)
    ensures
        package_outcome(
            installed,
            HomebrewInstall::command_result(Err::<(), UpError>(error), false),
        ) == Ok::<HomebrewHandled, UpError>(HomebrewHandled::Noop),
{
}

impl HomebrewInstall {
    /// Sees to it that the package is there: one that is `installed` in
    /// the version that was asked for is left alone; any other is handed
    /// to `install`, which is told whether the package is there and says
    /// whether it did something.
    pub fn up<F: FnOnce(bool) -> Result<bool, UpError>>(&self, installed: bool, install: F) -> (r:
        Result<HomebrewHandled, UpError>)
        requires
            call_requires(install, (installed,)),
        ensures
            installed && self.version is Some ==> r == Ok::<HomebrewHandled, UpError>(
                HomebrewHandled::Noop,
            ),
            !(installed && self.version is Some) ==> exists|outcome: Result<bool, UpError>|
                #[trigger] call_ensures(install, (installed,), outcome) && r == package_outcome(
                    installed,
                    outcome,
                ),
    {
        if self.is_settled(installed) {
            return Ok(HomebrewHandled::Noop);
        }
        let outcome = install(installed);
        proof {
            assert(call_ensures(install, (installed,), outcome));
        }
        match outcome {
            Ok(did_something) => Ok(Self::up_outcome(installed, did_something)),
            Err(error) => Err(error),
        }
    }

    /// Removes the package from the machine, unless it is not `installed`:
    /// then there is nothing to remove. The package is removed by
    /// `uninstall`; then `tapped_file` is asked for the file that the
    /// package manager names for the package, and a package of the local
    /// tap leaves that tap as `leave_local_tap` says, with `run` to carry
    /// out each step. The first failure is the result.
    pub fn down<
        F: FnOnce() -> Result<(), UpError>,
        T: FnOnce() -> Option<String>,
        L: Fn(LocalTapStep) -> Result<bool, UpError>,
    >(&self, installed: bool, uninstall: F, tapped_file: T, run: L) -> (r: Removal<UpError>)
        requires
            call_requires(uninstall, ()),
            call_requires(tapped_file, ()),
            forall|step: LocalTapStep| call_requires(run, (step,)),
        ensures
            !installed ==> r is Skipped,
            installed ==> exists|outcome: Result<(), UpError>|
                #[trigger] call_ensures(uninstall, (), outcome) && match outcome {
                    Err(error) => r == Removal::Failed(error),
                    Ok(_) => exists|file: Option<String>, left: Result<(), UpError>|
                        {
                            &&& #[trigger] call_ensures(tapped_file, (), file)
                            &&& #[trigger] leaves(
                                run,
                                self.first_local_tap_step(optional_view(file)),
                                left,
                                3,
                            )
                            &&& r == removed_or_failed(left)
                        },
                },
    {
        if !installed {
            return Removal::Skipped;
        }
        let outcome = uninstall();
        proof {
            assert(call_ensures(uninstall, (), outcome));
        }
        if let Err(error) = outcome {
            return Removal::Failed(error);
        }
        let file = tapped_file();
        proof {
            assert(call_ensures(tapped_file, (), file));
        }
        let left = match &file {
            Some(name) => self.leave_local_tap(Some(name.as_str()), run),
            None => self.leave_local_tap(None, run),
        };
        proof {
            assert(leaves(run, self.first_local_tap_step(optional_view(file)), left, 3));
        }
        match left {
            Ok(_) => Removal::Removed,
            Err(error) => Removal::Failed(error),
        }
    }
}

/// A step of taking a package that was removed out of the local tap.
#[derive(Debug, Clone, Copy, PartialEq, Eq, Structural)]
pub enum LocalTapStep {
    /// Remove the file that the local tap keeps for the package.
    RemoveFile,
    /// Ask whether a package of the local tap is still installed.
    AskInUse,
    /// Drop the local tap.
    Untap,
    /// Nothing is left to do.
    Done,
    /// The file could not be removed.
    Failed,
}

/// The step that follows `step`, given its answer: whether the file was
/// removed, whether the tap is still in use, or whether the tap was
/// dropped. A tap that is still in use stays.
pub open spec fn local_tap_step_after(step: LocalTapStep, answer: bool) -> LocalTapStep {
    match step {
        LocalTapStep::RemoveFile => if answer {
            LocalTapStep::AskInUse
        } else {
            LocalTapStep::Failed
        },
        LocalTapStep::AskInUse => if answer {
            LocalTapStep::Done
        } else {
            LocalTapStep::Untap
        },
        LocalTapStep::Untap => LocalTapStep::Done,
        LocalTapStep::Done => LocalTapStep::Done,
        LocalTapStep::Failed => LocalTapStep::Failed,
    }
}

/// How many steps can at most follow `step`.
pub open spec fn local_tap_steps_left(step: LocalTapStep) -> nat {
    match step {
        LocalTapStep::RemoveFile => 3,
        LocalTapStep::AskInUse => 2,
        LocalTapStep::Untap => 1,
        LocalTapStep::Done => 0,
        LocalTapStep::Failed => 0,
    }
}

/// Whether `result` may be what leaving the local tap comes to from `step`
/// on, with at most `left` steps to go: each step is carried out by
/// `run`, which gives its answer or fails; a failure of `run` ends it and
/// is the result, and a file that could not be removed is an error of
/// its own.
pub open spec fn leaves<L: Fn(LocalTapStep) -> Result<bool, UpError>>(
    run: L,
    step: LocalTapStep,
    result: Result<(), UpError>,
    left: nat,
) -> bool
    decreases left,
{
    match step {
        LocalTapStep::Done => result is Ok,
        LocalTapStep::Failed => result matches Err(UpError::Exec(message)) && message@
            == "failed to remove formula from local tap"@,
        _ => left > 0 && exists|answer: Result<bool, UpError>|
            #[trigger] call_ensures(run, (step,), answer) && match answer {
                Ok(given) => leaves(
                    run,
                    local_tap_step_after(step, given),
                    result,
                    (left - 1) as nat,
                ),
                Err(error) => result == Err::<(), UpError>(error),
            },
    }
}

/// What leaving the local tap may come to with some steps to go, it may
/// come to with more.
pub proof fn lemma_leaves_with_more<L: Fn(LocalTapStep) -> Result<bool, UpError>>(
    run: L,
    step: LocalTapStep,
    result: Result<(), UpError>,
    left: nat,
    more: nat,
)
    requires
        leaves(run, step, result, left),
        left <= more,
    ensures
        leaves(run, step, result, more),
    decreases left,
{
    if step != LocalTapStep::Done && step != LocalTapStep::Failed {
        let answer = choose|answer: Result<bool, UpError>|
            #[trigger] call_ensures(run, (step,), answer) && match answer {
                Ok(given) => leaves(
                    run,
                    local_tap_step_after(step, given),
                    result,
                    (left - 1) as nat,
                ),
                Err(error) => result == Err::<(), UpError>(error),
            };
        if let Ok(given) = answer {
            lemma_leaves_with_more(
                run,
                local_tap_step_after(step, given),
                result,
                (left - 1) as nat,
                (more - 1) as nat,
            );
        }
    }
}

impl LocalTapStep {
    /// Whether nothing is left to do.
    pub fn is_final(&self) -> (r: bool)
        ensures
            r == (*self == LocalTapStep::Done || *self == LocalTapStep::Failed),
    {
        match self {
            LocalTapStep::Done => true,
            LocalTapStep::Failed => true,
            _ => false,
        }
    }

    /// The step that follows this one, given its answer.
    pub fn next(&self, answer: bool) -> (r: LocalTapStep)
        ensures
            r == local_tap_step_after(*self, answer),
            !(*self == LocalTapStep::Done || *self == LocalTapStep::Failed)
                ==> local_tap_steps_left(r) < local_tap_steps_left(*self),
    {
        match self {
            LocalTapStep::RemoveFile => if answer {
                LocalTapStep::AskInUse
            } else {
                LocalTapStep::Failed
            },
            LocalTapStep::AskInUse => if answer {
                LocalTapStep::Done
            } else {
                LocalTapStep::Untap
            },
            LocalTapStep::Untap => LocalTapStep::Done,
            LocalTapStep::Done => LocalTapStep::Done,
            LocalTapStep::Failed => LocalTapStep::Failed,
        }
    }
}

impl HomebrewInstall {
    /// Whether the package lives in the local tap, given the file that the
    /// package manager names for it: only a package of a given version
    /// does, and only where that file is the one of the local tap.
    pub open spec fn in_local_tap(self, tapped_file: Option<Seq<char>>) -> bool {
        match tapped_file {
            Some(file) => self.version is Some && has_suffix(
                file,
                local_tap_file(
                    self.install_type,
                    package_id_text(self.name@, optional_view(self.version)),
                ),
            ),
            None => false,
        }
    }

    /// The first step of taking the package out of the local tap: none for
    /// a package that does not live there.
    pub open spec fn first_local_tap_step(self, tapped_file: Option<Seq<char>>) -> LocalTapStep {
        if self.in_local_tap(tapped_file) {
            LocalTapStep::RemoveFile
        } else {
            LocalTapStep::Done
        }
    }

    /// Takes the package, which was removed from the machine, out of the
    /// local tap where it lives there: the tap's file for it is removed,
    /// and the tap is dropped unless a package of it is still installed.
    pub fn leave_local_tap<L: Fn(LocalTapStep) -> Result<bool, UpError>>(
        &self,
        tapped_file: Option<&str>,
        run: L,
    ) -> (r: Result<(), UpError>)
        requires
            forall|step: LocalTapStep| call_requires(run, (step,)),
        ensures
            leaves(
                run,
                self.first_local_tap_step(
                    match tapped_file {
                        Some(file) => Some(file@),
                        None => None,
                    },
                ),
                r,
                3,
            ),
    {
        let first = if self.is_in_local_tap(tapped_file) {
            LocalTapStep::RemoveFile
        } else {
            LocalTapStep::Done
        };
        let mut step = first;
        while !step.is_final()
            invariant
                first == self.first_local_tap_step(
                    match tapped_file {
                        Some(file) => Some(file@),
                        None => None,
                    },
                ),
                forall|step: LocalTapStep| call_requires(run, (step,)),
                forall|result: Result<(), UpError>|
                    leaves(run, step, result, local_tap_steps_left(step)) ==> #[trigger] leaves(
                        run,
                        first,
                        result,
                        local_tap_steps_left(first),
                    ),
            decreases local_tap_steps_left(step),
        {
            let answer = run(step);
            proof {
                assert(call_ensures(run, (step,), answer));
            }
            match answer {
                Ok(given) => {
                    let next = step.next(given);
                    proof {
                        assert forall|result: Result<(), UpError>|
                            leaves(
                                run,
                                next,
                                result,
                                local_tap_steps_left(next),
                            ) implies #[trigger] leaves(
                            run,
                            first,
                            result,
                            local_tap_steps_left(first),
                        ) by {
                            lemma_leaves_with_more(
                                run,
                                next,
                                result,
                                local_tap_steps_left(next),
                                (local_tap_steps_left(step) - 1) as nat,
                            );
                            assert(leaves(run, step, result, local_tap_steps_left(step)));
                        }
                    }
                    step = next;
                },
                Err(error) => {
                    proof {
                        assert(leaves(
                            run,
                            step,
                            Err::<(), UpError>(error),
                            local_tap_steps_left(step),
                        ));
                        assert(leaves(
                            run,
                            first,
                            Err::<(), UpError>(error),
                            local_tap_steps_left(first),
                        ));
                        lemma_leaves_with_more(
                            run,
                            first,
                            Err::<(), UpError>(error),
                            local_tap_steps_left(first),
                            3,
                        );
                    }
                    return Err(error);
                },
            }
        }
        let r = match step {
            LocalTapStep::Failed => Err(
                UpError::Exec(String::from_str("failed to remove formula from local tap")),
            ),
            _ => Ok(()),
        };
        proof {
            assert(leaves(run, step, r, local_tap_steps_left(step)));
            assert(leaves(run, first, r, local_tap_steps_left(first)));
            lemma_leaves_with_more(run, first, r, local_tap_steps_left(first), 3);
        }
        r
    }
}

/// Whether `run` may have dealt with the first `upto` of `items` as
/// `outcomes` say, without a failure.
pub open spec fn went<T, F: Fn(&T) -> Result<HomebrewHandled, UpError>>(
    run: F,
    items: Seq<T>,
    outcomes: Seq<HomebrewHandled>,
    upto: int,
) -> bool {
    &&& outcomes.len() == upto
    &&& upto <= items.len()
    &&& forall|i: int|
        0 <= i < upto ==> call_ensures(
            run,
            (&items[i],),
            Ok::<HomebrewHandled, UpError>(#[trigger] outcomes[i]),
        )
}

/// Whether `run` may have failed with `error` on one of `items` after it
/// dealt with every item before it.
pub open spec fn halted<T, F: Fn(&T) -> Result<HomebrewHandled, UpError>>(
    run: F,
    items: Seq<T>,
    error: UpError,
) -> bool {
    exists|outcomes: Seq<HomebrewHandled>|
        outcomes.len() < items.len() && #[trigger] went(run, items, outcomes, outcomes.len() as int)
            && call_ensures(
            run,
            (&items[outcomes.len() as int],),
            Err::<HomebrewHandled, UpError>(error),
        )
}

/// Deals with each of `items` in turn through `run`, up to the first
/// failure.
pub fn run_each<T, F: Fn(&T) -> Result<HomebrewHandled, UpError>>(items: &Vec<T>, run: &F) -> (r:
    Result<Vec<HomebrewHandled>, UpError>)
    requires
        forall|item: &T| call_requires(*run, (item,)),
    ensures
        match r {
            Ok(outcomes) => went(*run, items@, outcomes@, items@.len() as int),
            Err(error) => halted(*run, items@, error),
        },
{
    let mut outcomes: Vec<HomebrewHandled> = Vec::new();
    let mut i: usize = 0;
    while i < items.len()
        invariant
            i <= items.len(),
            forall|item: &T| call_requires(*run, (item,)),
            went(*run, items@, outcomes@, i as int),
        decreases items.len() - i,
    {
        let outcome = run(&items[i]);
        proof {
            assert(call_ensures(*run, (&items@[i as int],), outcome));
        }
        match outcome {
            Ok(handled) => {
                outcomes.push(handled);
            },
            Err(error) => {
                return Err(error);
            },
        }
        i = i + 1;
    }
    Ok(outcomes)
}

impl UpConfigHomebrew {
    /// Sets up what the project needs: first each tap through `tap_up`,
    /// then each package through `install_up`, in their order. The first
    /// failure ends the run and is the result; without one the result sums
    /// up what was done.
    pub fn up<
        T: Fn(&HomebrewTap) -> Result<HomebrewHandled, UpError>,
        I: Fn(&HomebrewInstall) -> Result<HomebrewHandled, UpError>,
    >(&self, tap_up: T, install_up: I) -> (r: Result<String, UpError>)
        requires
            forall|tap: &HomebrewTap| call_requires(tap_up, (tap,)),
            forall|install: &HomebrewInstall| call_requires(install_up, (install,)),
        ensures
            match r {
                Ok(message) => exists|
                    tap_outcomes: Seq<HomebrewHandled>,
                    install_outcomes: Seq<HomebrewHandled>,
                |
                    {
                        &&& #[trigger] went(tap_up, self.tap@, tap_outcomes, self.tap@.len() as int)
                        &&& #[trigger] went(
                            install_up,
                            self.install@,
                            install_outcomes,
                            self.install@.len() as int,
                        )
                        &&& self.sums_up(tap_outcomes, install_outcomes, message@)
                    },
                Err(error) => halted(tap_up, self.tap@, error) || (exists|
                    tap_outcomes: Seq<HomebrewHandled>,
                |
                    #[trigger] went(tap_up, self.tap@, tap_outcomes, self.tap@.len() as int))
                    && halted(install_up, self.install@, error),
            },
    {
        let tap_outcomes = match run_each(&self.tap, &tap_up) {
            Ok(outcomes) => outcomes,
            Err(error) => {
                return Err(error);
            },
        };
        let install_outcomes = match run_each(&self.install, &install_up) {
            Ok(outcomes) => outcomes,
            Err(error) => {
                return Err(error);
            },
        };
        Ok(self.get_up_message(&tap_outcomes, &install_outcomes))
    }

    /// Notes in `cache` that the working directory requires nothing any
    /// more. Says whether the cache changed. A working directory without
    /// an id is in no record: the cache is left as it is.
    pub fn down(cache: &mut HomebrewOperationCache, workdir_id: Option<&str>) -> (r: bool)
        ensures
            match workdir_id {
                Some(id) => {
                    &&& Registry::after_release(
                        old(cache).installed.records@,
                        final(cache).installed.records@,
                        id@,
                        None,
                    )
                    &&& Registry::after_release(
                        old(cache).tapped.records@,
                        final(cache).tapped.records@,
                        id@,
                        None,
                    )
                    &&& r == (any_released(old(cache).installed.records@, id@, None)
                        || any_released(old(cache).tapped.records@, id@, None))
                },
                None => *final(cache) == *old(cache) && !r,
            },
            final(cache).updated_at == old(cache).updated_at,
    {
        match workdir_id {
            Some(id) => cache.down(id),
            None => false,
        }
    }

    /// Cleans up `cache` for the working directory, and says whether the
    /// cache changed and what the cleanup amounts to: the summary of what
    /// was removed, or the failure that ended it. For a working directory
    /// without an id nothing is cleaned up: the cache is left as it is,
    /// nothing is handed to `uninstall` or `untap`, and the result is the
    /// error that says so.
    pub fn cleanup<
        F: Fn(&InstalledResource) -> Removal<UpError>,
        G: Fn(&InstalledResource) -> Removal<UpError>,
    >(
        cache: &mut HomebrewOperationCache,
        workdir_id: Option<&str>,
        clock: &RunClock,
        uninstall: F,
        untap: G,
    ) -> (r: (bool, Result<Option<String>, UpError>))
        requires
            forall|record: &InstalledResource| call_requires(uninstall, (record,)),
            forall|record: &InstalledResource| call_requires(untap, (record,)),
        ensures
            match workdir_id {
                Some(id) => exists|report: CleanupReport|
                    {
                        &&& #[trigger] HomebrewOperationCache::cleaned_up(
                            *old(cache),
                            *final(cache),
                            id@,
                            *clock,
                            uninstall,
                            untap,
                            report,
                        )
                        &&& report.changed == r.0
                        &&& report.amounts_to(r.1)
                    },
                None => {
                    &&& *final(cache) == *old(cache)
                    &&& !r.0
                    &&& r.1 matches Err(UpError::Exec(message))
                    &&& message@ == "failed to get workdir id"@
                },
            },
            final(cache).updated_at == old(cache).updated_at,
    {
        let id = match workdir_id {
            Some(id) => id,
            None => {
                return (
                    false,
                    Err(UpError::Exec(String::from_str("failed to get workdir id"))),
                );
            },
        };
        let report = cache.cleanup(id, clock, uninstall, untap);
        let changed = report.changed;
        let ghost given = report;
        let result = report.into_result();
        proof {
            assert(given.amounts_to(result));
        }
        (changed, result)
    }
}

/// Whether `result` may be what making a package available comes to from
/// `step` on, with at most `left` steps to go: each step is carried out by
/// `run`, which says whether it succeeded or fails; a failure of `run`
/// ends the extraction and is its result, and so does a step that leads
/// to `Failed`, which means that the package manager's data could not be
/// brought up to date.
pub open spec fn extracts<F: Fn(ExtractStep) -> Result<bool, UpError>>(
    run: F,
    step: ExtractStep,
    options: ExtractOptions,
    result: Result<(), UpError>,
    left: nat,
) -> bool
    decreases left,
{
    match step {
        ExtractStep::Finished => result is Ok,
        ExtractStep::Failed => result matches Err(UpError::Exec(message)) && message@
            == "failed to update homebrew"@,
        _ => left > 0 && exists|answer: Result<bool, UpError>|
            #[trigger] call_ensures(run, (step,), answer) && match answer {
                Ok(succeeded) => extracts(
                    run,
                    step_after(step, succeeded, options),
                    options,
                    result,
                    (left - 1) as nat,
                ),
                Err(error) => result == Err::<(), UpError>(error),
            },
    }
}

/// Whether `result` may be what installing or upgrading a package comes
/// to: nothing is done for a package that is up to date; one that is not
/// installed is first made available by `extract`, whose failure is the
/// result; then `run` is handed the command, and what it gives counts as
/// `install_result` says.
pub open spec fn installs<
    E: FnOnce() -> Result<(), UpError>,
    R: FnOnce(Vec<String>) -> Result<(), UpError>,
>(
    install: HomebrewInstall,
    installed: bool,
    read_cache: bool,
    update_due: bool,
    fail_on_upgrade: bool,
    extract: E,
    run: R,
    result: Result<bool, UpError>,
) -> bool {
    let ran = exists|arguments: Vec<String>, outcome: Result<(), UpError>|
        {
            &&& views(arguments@) == seq![
                if installed {
                    "upgrade"@
                } else {
                    "install"@
                },
                kind_option(install.install_type),
                package_id_text(install.name@, optional_view(install.version)),
            ]
            &&& #[trigger] call_ensures(run, (arguments,), outcome)
            &&& result == HomebrewInstall::command_result(outcome, fail_on_upgrade)
        };
    if !installed {
        exists|extracted: Result<(), UpError>|
            #[trigger] call_ensures(extract, (), extracted) && match extracted {
                Ok(_) => ran,
                Err(error) => result == Err::<bool, UpError>(error),
            }
    } else if read_cache && !update_due {
        result == Ok::<bool, UpError>(false)
    } else {
        ran
    }
}

impl HomebrewInstall {
    /// Makes the package available in the version that was asked for, step
    /// by step, with `run` to carry out each step.
    pub fn extract_package<F: Fn(ExtractStep) -> Result<bool, UpError>>(
        &self,
        options: &ExtractOptions,
        run: F,
    ) -> (r: Result<(), UpError>)
        requires
            forall|step: ExtractStep| call_requires(run, (step,)),
        ensures
            extracts(
                run,
                if self.version is None {
                    ExtractStep::Finished
                } else {
                    ExtractStep::CheckFormula
                },
                *options,
                r,
                5,
            ),
    {
        let first = self.first_extract_step();
        let mut step = first;
        while !step.is_final()
            invariant
                first == if self.version is None {
                    ExtractStep::Finished
                } else {
                    ExtractStep::CheckFormula
                },
                forall|step: ExtractStep| call_requires(run, (step,)),
                forall|result: Result<(), UpError>|
                    extracts(run, step, *options, result, steps_left(step)) ==> #[trigger] extracts(
                        run,
                        first,
                        *options,
                        result,
                        steps_left(first),
                    ),
            decreases steps_left(step),
        {
            let answer = run(step);
            proof {
                assert(call_ensures(run, (step,), answer));
            }
            match answer {
                Ok(succeeded) => {
                    let next = step.next(succeeded, options);
                    proof {
                        lemma_extraction_ends(step, succeeded, *options);
                        assert forall|result: Result<(), UpError>|
                            extracts(
                                run,
                                next,
                                *options,
                                result,
                                steps_left(next),
                            ) implies #[trigger] extracts(
                            run,
                            first,
                            *options,
                            result,
                            steps_left(first),
                        ) by {
                            lemma_extracts_with_more(
                                run,
                                next,
                                *options,
                                result,
                                steps_left(next),
                                (steps_left(step) - 1) as nat,
                            );
                            assert(extracts(run, step, *options, result, steps_left(step)));
                        }
                    }
                    step = next;
                },
                Err(error) => {
                    proof {
                        assert(extracts(
                            run,
                            step,
                            *options,
                            Err::<(), UpError>(error),
                            steps_left(step),
                        ));
                        assert(extracts(
                            run,
                            first,
                            *options,
                            Err::<(), UpError>(error),
                            steps_left(first),
                        ));
                        lemma_extracts_with_more(
                            run,
                            first,
                            *options,
                            Err::<(), UpError>(error),
                            steps_left(first),
                            5,
                        );
                    }
                    return Err(error);
                },
            }
        }
        let r = match step {
            ExtractStep::Failed => Err(UpError::Exec(String::from_str("failed to update homebrew"))),
            _ => Ok(()),
        };
        proof {
            assert(extracts(run, step, *options, r, steps_left(step)));
            assert(extracts(run, first, *options, r, steps_left(first)));
            lemma_extracts_with_more(run, first, *options, r, steps_left(first), 5);
        }
        r
    }

    /// Installs the package, or upgrades it where it is `installed`; says
    /// whether anything was done.
    pub fn install<
        E: FnOnce() -> Result<(), UpError>,
        R: FnOnce(Vec<String>) -> Result<(), UpError>,
    >(
        &self,
        installed: bool,
        read_cache: bool,
        update_due: bool,
        fail_on_upgrade: bool,
        extract: E,
        run: R,
    ) -> (r: Result<bool, UpError>)
        requires
            call_requires(extract, ()),
            forall|arguments: Vec<String>| call_requires(run, (arguments,)),
        ensures
            installs(*self, installed, read_cache, update_due, fail_on_upgrade, extract, run, r),
    {
        match Self::plan(installed, read_cache, update_due) {
            InstallPlan::Install => {
                let extracted = extract();
                proof {
                    assert(call_ensures(extract, (), extracted));
                }
                if let Err(error) = extracted {
                    return Err(error);
                }
            },
            InstallPlan::UpToDate => {
                return Ok(false);
            },
            InstallPlan::Upgrade => {},
        }
        let arguments = self.install_arguments(installed);
        let ghost given = arguments;
        let outcome = run(arguments);
        proof {
            assert(call_ensures(run, (given,), outcome));
        }
        Self::install_result(outcome, fail_on_upgrade)
    }
}

/// What an extraction may come to with some steps to go, it may come to
/// with more.
pub proof fn lemma_extracts_with_more<F: Fn(ExtractStep) -> Result<bool, UpError>>(
    run: F,
    step: ExtractStep,
    options: ExtractOptions,
    result: Result<(), UpError>,
    left: nat,
    more: nat,
)
    requires
        extracts(run, step, options, result, left),
        left <= more,
    ensures
        extracts(run, step, options, result, more),
    decreases left,
{
    if step != ExtractStep::Finished && step != ExtractStep::Failed {
        let answer = choose|answer: Result<bool, UpError>|
            #[trigger] call_ensures(run, (step,), answer) && match answer {
                Ok(succeeded) => extracts(
                    run,
                    step_after(step, succeeded, options),
                    options,
                    result,
                    (left - 1) as nat,
                ),
                Err(error) => result == Err::<(), UpError>(error),
            };
        if let Ok(succeeded) = answer {
            lemma_extracts_with_more(
                run,
                step_after(step, succeeded, options),
                options,
                result,
                (left - 1) as nat,
                (more - 1) as nat,
            );
        }
    }
}

impl HomebrewInstall {
    /// Whether the package is installed. Where the cache is read and says
    /// that no look is due, it is taken to be there; else `list` asks the
    /// package manager.
    pub fn is_installed<F: FnOnce() -> bool>(read_cache: bool, check_due: bool, list: F) -> (r:
        bool)
        requires
            call_requires(list, ()),
        ensures
            read_cache && !check_due ==> r,
            !(read_cache && !check_due) ==> call_ensures(list, (), r),
    {
        if read_cache && !check_due {
            return true;
        }
        list()
    }

    /// Notes in `cache` that the working directory requires the package
    /// during the run of `clock`, and that this tool installed it where
    /// `outcome` says that it did. Says whether the cache changed. A
    /// working directory without an id requires nothing: the cache is
    /// left as it is.
    pub fn update_cache(
        &self,
        cache: &mut HomebrewOperationCache,
        workdir_id: Option<&str>,
        outcome: HomebrewHandled,
        clock: &RunClock,
    ) -> (r: bool)
        ensures
            match workdir_id {
                Some(id) => {
                    &&& Registry::after_add(
                        old(cache).installed.records@,
                        final(cache).installed.records@,
                        r,
                        id@,
                        ResourceKey {
                            kind: if self.install_type == HomebrewInstallType::Cask {
                                ResourceKind::Cask
                            } else {
                                ResourceKind::Formula
                            },
                            name: self.name@,
                            version: optional_view(self.version),
                        },
                        outcome == HomebrewHandled::Handled,
                        *clock,
                    )
                    &&& final(cache).tapped == old(cache).tapped
                    &&& final(cache).update_cache == old(cache).update_cache
                    &&& final(cache).updated_at == if r {
                        clock.now
                    } else {
                        old(cache).updated_at
                    }
                },
                None => *final(cache) == *old(cache) && !r,
            },
    {
        match workdir_id {
            Some(id) => cache.add_install(
                id,
                self.name.as_str(),
                clone_optional(&self.version),
                self.is_cask(),
                Self::was_handled(outcome),
                clock,
            ),
            None => false,
        }
    }

    /// The directory of the package manager's own commands, and whether
    /// it is to be remembered: what is remembered where the cache is read
    /// and holds a directory, else what `find` finds, which is to be
    /// remembered where it found one.
    pub fn brew_bin_path<F: FnOnce() -> Option<String>>(
        read_cache: bool,
        remembered: Option<String>,
        find: F,
    ) -> (r: (Option<String>, bool))
        requires
            call_requires(find, ()),
        ensures
            read_cache && remembered is Some && remembered.unwrap()@.len() > 0 ==> r == (
                remembered,
                false,
            ),
            !(read_cache && remembered is Some && remembered.unwrap()@.len() > 0) ==> call_ensures(
                find,
                (),
                r.0,
            ) && r.1 == r.0 is Some,
    {
        if read_cache {
            if let Some(bin_path) = remembered {
                if bin_path.as_str().unicode_len() > 0 {
                    return (Some(bin_path), false);
                }
            }
        }
        let found = find();
        let remember = found.is_some();
        (found, remember)
    }

    /// The directories of the package's commands, and whether they are to
    /// be remembered: what is remembered where the cache is read and
    /// holds them, else what `find` finds, which is to be remembered.
    pub fn bin_paths<F: FnOnce() -> Vec<String>>(
        read_cache: bool,
        remembered: Option<Vec<String>>,
        find: F,
    ) -> (r: (Vec<String>, bool))
        requires
            call_requires(find, ()),
        ensures
            read_cache && remembered is Some ==> r == (remembered.unwrap(), false),
            !(read_cache && remembered is Some) ==> call_ensures(find, (), r.0) && r.1,
    {
        if read_cache {
            if let Some(bin_paths) = remembered {
                return (bin_paths, false);
            }
        }
        (find(), true)
    }
}

impl HomebrewTap {
    /// Notes in `cache` that the working directory requires the tap during
    /// the run of `clock`, and that this tool added it where `outcome`
    /// says that it did. Says whether the cache changed. A working
    /// directory without an id requires nothing: the cache is left as it
    /// is.
    pub fn update_cache(
        &self,
        cache: &mut HomebrewOperationCache,
        workdir_id: Option<&str>,
        outcome: HomebrewHandled,
        clock: &RunClock,
    ) -> (r: bool)
        ensures
            match workdir_id {
                Some(id) => {
                    &&& Registry::after_add(
                        old(cache).tapped.records@,
                        final(cache).tapped.records@,
                        r,
                        id@,
                        ResourceKey { kind: ResourceKind::Tap, name: self.name@, version: None },
                        outcome == HomebrewHandled::Handled,
                        *clock,
                    )
                    &&& final(cache).installed == old(cache).installed
                    &&& final(cache).update_cache == old(cache).update_cache
                    &&& final(cache).updated_at == if r {
                        clock.now
                    } else {
                        old(cache).updated_at
                    }
                },
                None => *final(cache) == *old(cache) && !r,
            },
    {
        match workdir_id {
            Some(id) => cache.add_tap(
                id,
                self.name.as_str(),
                HomebrewInstall::was_handled(outcome),
                clock,
            ),
            None => false,
        }
    }
}

} // verus!
