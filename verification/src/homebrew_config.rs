//! Reading the packages and taps that a project asks for from its
//! configuration.

use vstd::prelude::*;
use vstd::string::*;
use crate::config_value::{ConfigEntry, ConfigValue};
use crate::homebrew::{
    is_sorted_arrangement, sorted_names, HomebrewInstall, HomebrewInstallType, HomebrewTap,
    UpConfigHomebrew,
};
use crate::path_repo_updates::clone_optional;
use crate::pattern::optional_view;
use crate::string_map::StringMap;
use crate::text::{integer_text, signed_decimal, views};
use crate::version::{
    characters, codes, lemma_codes_tell_apart, lemma_sequence_rank_equal, sequence_rank,
};

verus! {

/// A package as the configuration asks for it.
pub struct PackageRequest {
    pub install_type: HomebrewInstallType,
    pub name: Seq<char>,
    pub version: Option<Seq<char>>,
}

impl View for HomebrewInstall {
    type V = PackageRequest;

    open spec fn view(&self) -> PackageRequest {
        PackageRequest {
            install_type: self.install_type,
            name: self.name@,
            version: optional_view(self.version),
        }
    }
}

/// What `installs` ask for, in order.
pub open spec fn requests(installs: Seq<HomebrewInstall>) -> Seq<PackageRequest> {
    Seq::new(installs.len(), |i: int| installs[i]@)
}

/// The version that `value` writes: a text, a whole number, or a number
/// with a fraction as it is written.
pub open spec fn version_written(value: ConfigValue) -> Option<Seq<char>> {
    match value {
        ConfigValue::String(text) => Some(text@),
        ConfigValue::Integer(number) => Some(signed_decimal(number as int)),
        ConfigValue::Float(text) => Some(text@),
        _ => None,
    }
}

/// Where the version of a package is written: `rest` itself where it is a
/// text, else what it holds under `version`.
pub open spec fn version_source(rest: ConfigValue) -> Option<ConfigValue> {
    if rest.text() is Some {
        Some(rest)
    } else {
        rest.member("version"@)
    }
}

/// The version of a package whose settings are `rest`.
pub open spec fn version_asked(rest: ConfigValue) -> Option<Seq<char>> {
    match version_source(rest) {
        Some(value) => version_written(value),
        None => None,
    }
}

/// The package that one item of the list asks for. A text names a
/// formula. A table names a formula under `formula` or a cask under
/// `cask`, and gives the version under `version`; a table with a single
/// other entry names a formula by its key, with the version as its value
/// or under `version` in it. Anything else asks for nothing.
pub open spec fn package_of(item: ConfigValue) -> Option<PackageRequest> {
    match item {
        ConfigValue::Table(entries) => {
            if item.member("formula"@) is Some {
                match item.member("formula"@).unwrap().text() {
                    Some(name) => Some(
                        PackageRequest {
                            install_type: HomebrewInstallType::Formula,
                            name,
                            version: version_asked(item),
                        },
                    ),
                    None => None,
                }
            } else if item.member("cask"@) is Some {
                match item.member("cask"@).unwrap().text() {
                    Some(name) => Some(
                        PackageRequest {
                            install_type: HomebrewInstallType::Cask,
                            name,
                            version: version_asked(item),
                        },
                    ),
                    None => None,
                }
            } else if entries@.len() == 1 {
                Some(
                    PackageRequest {
                        install_type: HomebrewInstallType::Formula,
                        name: entries@[0].key@,
                        version: version_asked(entries@[0].value),
                    },
                )
            } else {
                None
            }
        },
        ConfigValue::String(text) => Some(
            PackageRequest {
                install_type: HomebrewInstallType::Formula,
                name: text@,
                version: None,
            },
        ),
        _ => None,
    }
}

/// The packages that the first `upto` of `items` ask for, in order.
pub open spec fn packages_from(items: Seq<ConfigValue>, upto: int) -> Seq<PackageRequest>
    decreases upto,
{
    if upto <= 0 || upto > items.len() {
        Seq::empty()
    } else {
        match package_of(items[upto - 1]) {
            Some(package) => packages_from(items, upto - 1).push(package),
            None => packages_from(items, upto - 1),
        }
    }
}

/// The packages that `formulae` asks for: those of its items where it is
/// a list, one formula where it is a text, and none else.
pub open spec fn packages_of(formulae: ConfigValue) -> Seq<PackageRequest> {
    match formulae {
        ConfigValue::Array(items) => packages_from(items@, items@.len() as int),
        ConfigValue::String(text) => seq![
            PackageRequest {
                install_type: HomebrewInstallType::Formula,
                name: text@,
                version: None,
            },
        ],
        _ => Seq::empty(),
    }
}

/// The packages that the configuration asks for: what a table holds under
/// `install`, and what anything else asks for itself.
pub open spec fn packages_asked(config_value: Option<ConfigValue>) -> Seq<PackageRequest> {
    match config_value {
        Some(value) => if value is Table {
            match value.member("install"@) {
                Some(formulae) => packages_of(formulae),
                None => Seq::empty(),
            }
        } else {
            packages_of(value)
        },
        None => Seq::empty(),
    }
}

/// Reads the version that `value` writes.
pub fn read_version(value: &ConfigValue) -> (r: Option<String>)
    ensures
        optional_view(r) == version_written(*value),
{
    match value {
        ConfigValue::String(text) => Some(text.clone()),
        ConfigValue::Integer(number) => Some(integer_text(*number)),
        ConfigValue::Float(text) => Some(text.clone()),
        _ => None,
    }
}

/// Reads the version of a package whose settings are `rest`.
pub fn read_version_asked(rest: &ConfigValue) -> (r: Option<String>)
    ensures
        optional_view(r) == version_asked(*rest),
{
    if rest.is_str() {
        read_version(rest)
    } else {
        match rest.get("version") {
            Some(value) => read_version(value),
            None => None,
        }
    }
}

impl HomebrewInstall {
    /// Reads the package that one item of the list asks for.
    pub fn parse_formula(item: &ConfigValue) -> (r: Option<HomebrewInstall>)
        ensures
            match r {
                Some(install) => package_of(*item) == Some(install@),
                None => package_of(*item) is None,
            },
    {
        match item {
            ConfigValue::Table(entries) => {
                if let Some(formula) = item.get("formula") {
                    match formula.as_str() {
                        Some(name) => Some(
                            HomebrewInstall {
                                install_type: HomebrewInstallType::Formula,
                                name: String::from_str(name),
                                version: read_version_asked(item),
                            },
                        ),
                        None => None,
                    }
                } else if let Some(cask) = item.get("cask") {
                    match cask.as_str() {
                        Some(name) => Some(
                            HomebrewInstall {
                                install_type: HomebrewInstallType::Cask,
                                name: String::from_str(name),
                                version: read_version_asked(item),
                            },
                        ),
                        None => None,
                    }
                } else if entries.len() == 1 {
                    Some(
                        HomebrewInstall {
                            install_type: HomebrewInstallType::Formula,
                            name: entries[0].key.clone(),
                            version: read_version_asked(&entries[0].value),
                        },
                    )
                } else {
                    None
                }
            },
            ConfigValue::String(text) => Some(
                HomebrewInstall {
                    install_type: HomebrewInstallType::Formula,
                    name: text.clone(),
                    version: None,
                },
            ),
            _ => None,
        }
    }

    /// Reads the packages that `formulae` asks for.
    pub fn parse_formulae(formulae: &ConfigValue) -> (r: Vec<HomebrewInstall>)
        ensures
            requests(r@) == packages_of(*formulae),
    {
        let mut installs: Vec<HomebrewInstall> = Vec::new();
        match formulae {
            ConfigValue::Array(items) => {
                let mut i: usize = 0;
                proof {
                    assert(requests(installs@) =~= packages_from(items@, 0));
                }
                while i < items.len()
                    invariant
                        i <= items.len(),
                        requests(installs@) == packages_from(items@, i as int),
                    decreases items.len() - i,
                {
                    let ghost before = requests(installs@);
                    if let Some(install) = Self::parse_formula(&items[i]) {
                        installs.push(install);
                        proof {
                            assert(requests(installs@) =~= before.push(install@));
                        }
                    }
                    i = i + 1;
                }
            },
            ConfigValue::String(text) => {
                installs.push(
                    HomebrewInstall {
                        install_type: HomebrewInstallType::Formula,
                        name: text.clone(),
                        version: None,
                    },
                );
                proof {
                    assert(requests(installs@) =~= packages_of(*formulae));
                }
            },
            _ => {
                proof {
                    assert(requests(installs@) =~= packages_of(*formulae));
                }
            },
        }
        installs
    }

    /// Reads the packages that the configuration asks for.
    pub fn from_config_value(config_value: Option<&ConfigValue>) -> (r: Vec<HomebrewInstall>)
        ensures
            requests(r@) == packages_asked(
                match config_value {
                    Some(value) => Some(*value),
                    None => None,
                },
            ),
    {
        match config_value {
            Some(value) => {
                if value.as_table().is_some() {
                    match value.get("install") {
                        Some(formulae) => Self::parse_formulae(formulae),
                        None => {
                            let none: Vec<HomebrewInstall> = Vec::new();
                            proof {
                                assert(requests(none@) =~= Seq::<PackageRequest>::empty());
                            }
                            none
                        },
                    }
                } else {
                    Self::parse_formulae(value)
                }
            },
            None => {
                let none: Vec<HomebrewInstall> = Vec::new();
                proof {
                    assert(requests(none@) =~= Seq::<PackageRequest>::empty());
                }
                none
            },
        }
    }
}

/// A tap as the configuration asks for it.
pub struct TapRequest {
    pub name: Seq<char>,
    pub url: Option<Seq<char>>,
}

impl View for HomebrewTap {
    type V = TapRequest;

    open spec fn view(&self) -> TapRequest {
        TapRequest { name: self.name@, url: optional_view(self.url) }
    }
}

/// What `taps` ask for, in order.
pub open spec fn tap_requests(taps: Seq<HomebrewTap>) -> Seq<TapRequest> {
    Seq::new(taps.len(), |i: int| taps[i]@)
}

/// The address that the settings of a tap give: the settings themselves
/// where they are a text, and what a table holds as a text under `url`.
pub open spec fn url_given(settings: ConfigValue) -> Option<Seq<char>> {
    match settings {
        ConfigValue::String(text) => Some(text@),
        ConfigValue::Table(_) => settings.member_text("url"@),
        _ => None,
    }
}

/// The tap that one item of the list asks for. A text names a tap. A
/// table names one as a text under `repo`, with its address under `url`;
/// a table without `repo` and with a single entry names a tap by its key,
/// with that entry's value as its settings. Anything else asks for
/// nothing.
pub open spec fn tap_of(item: ConfigValue) -> Option<TapRequest> {
    match item {
        ConfigValue::String(text) => Some(TapRequest { name: text@, url: None }),
        ConfigValue::Table(entries) => match item.member("repo"@) {
            Some(repo) => match repo.text() {
                Some(name) => Some(TapRequest { name, url: url_given(item) }),
                None => None,
            },
            None => if entries@.len() == 1 {
                Some(TapRequest { name: entries@[0].key@, url: url_given(entries@[0].value) })
            } else {
                None
            },
        },
        _ => None,
    }
}

/// The taps that the first `upto` of `items` ask for, in order.
pub open spec fn taps_from(items: Seq<ConfigValue>, upto: int) -> Seq<TapRequest>
    decreases upto,
{
    if upto <= 0 || upto > items.len() {
        Seq::empty()
    } else {
        match tap_of(items[upto - 1]) {
            Some(tap) => taps_from(items, upto - 1).push(tap),
            None => taps_from(items, upto - 1),
        }
    }
}

/// The taps that the first `upto` entries of a table name by their keys.
pub open spec fn taps_in(entries: Seq<ConfigEntry>, upto: int) -> Seq<TapRequest>
    decreases upto,
{
    if upto <= 0 || upto > entries.len() {
        Seq::empty()
    } else {
        taps_in(entries, upto - 1).push(
            TapRequest { name: entries[upto - 1].key@, url: url_given(entries[upto - 1].value) },
        )
    }
}

/// The taps that `taps` asks for: those of its items where it is a list,
/// one for each key where it is a table, one where it is a text.
pub open spec fn taps_of(taps: ConfigValue) -> Seq<TapRequest> {
    match taps {
        ConfigValue::Array(items) => taps_from(items@, items@.len() as int),
        ConfigValue::Table(entries) => taps_in(entries@, entries@.len() as int),
        ConfigValue::String(text) => seq![TapRequest { name: text@, url: None }],
        _ => Seq::empty(),
    }
}

/// The taps that the configuration asks for by name: what a table holds
/// under `tap`.
pub open spec fn taps_asked(config_value: Option<ConfigValue>) -> Seq<TapRequest> {
    match config_value {
        Some(value) => match value.member("tap"@) {
            Some(taps) => taps_of(taps),
            None => Seq::empty(),
        },
        None => Seq::empty(),
    }
}

/// How many of the first `upto` characters of `name` are a `/`.
pub open spec fn slash_count(name: Seq<char>, upto: int) -> nat
    decreases upto,
{
    if upto <= 0 || upto > name.len() {
        0
    } else {
        slash_count(name, upto - 1) + if name[upto - 1] == '/' {
            1nat
        } else {
            0nat
        }
    }
}

/// Where the last `/` among the first `upto` characters of `name` stands;
/// 0 without one.
pub open spec fn last_slash(name: Seq<char>, upto: int) -> int
    decreases upto,
{
    if upto <= 0 || upto > name.len() {
        0
    } else if name[upto - 1] == '/' {
        upto - 1
    } else {
        last_slash(name, upto - 1)
    }
}

/// The tap that the name of a package implies: a name of three parts
/// between two `/` is that of a package in the tap that its first two
/// parts name.
pub open spec fn implied_tap(name: Seq<char>) -> Option<Seq<char>> {
    if slash_count(name, name.len() as int) == 2 {
        Some(name.subrange(0, last_slash(name, name.len() as int)))
    } else {
        None
    }
}

/// The taps that the names of the first `upto` of `installs` imply.
pub open spec fn taps_implied(installs: Seq<PackageRequest>, upto: int) -> Seq<TapRequest>
    decreases upto,
{
    if upto <= 0 || upto > installs.len() {
        Seq::empty()
    } else {
        match implied_tap(installs[upto - 1].name) {
            Some(name) => taps_implied(installs, upto - 1).push(TapRequest { name, url: None }),
            None => taps_implied(installs, upto - 1),
        }
    }
}

/// For each name among the first `upto` of `asked`, the address of the
/// first tap of that name.
pub open spec fn first_urls(asked: Seq<TapRequest>, upto: int) -> Map<
    Seq<char>,
    Option<Seq<char>>,
>
    decreases upto,
{
    if upto <= 0 || upto > asked.len() {
        Map::empty()
    } else {
        let earlier = first_urls(asked, upto - 1);
        if earlier.dom().contains(asked[upto - 1].name) {
            earlier
        } else {
            earlier.insert(asked[upto - 1].name, asked[upto - 1].url)
        }
    }
}

/// The taps that a project needs, each name with its address: those that
/// its configuration asks for, then those that the names of its packages
/// imply; for a name that comes twice the first address counts.
pub open spec fn taps_needed(config_value: Option<ConfigValue>, installs: Seq<PackageRequest>) -> Map<
    Seq<char>,
    Option<Seq<char>>,
> {
    let all = taps_asked(config_value) + taps_implied(installs, installs.len() as int);
    first_urls(all, all.len() as int)
}

/// Whether `taps` lists the taps of `urls`: one for each name, with the
/// address that belongs to it, in the ascending order of the names.
pub open spec fn lists_taps(taps: Seq<TapRequest>, urls: Map<Seq<char>, Option<Seq<char>>>) -> bool {
    &&& forall|i: int, j: int|
        0 <= i < j < taps.len() ==> sequence_rank(
            codes(#[trigger] taps[i].name),
            codes(#[trigger] taps[j].name),
        ) < 0
    &&& forall|i: int|
        0 <= i < taps.len() ==> urls.dom().contains(#[trigger] taps[i].name) && urls[taps[i].name]
            == taps[i].url
    &&& forall|name: Seq<char>| #[trigger]
        urls.dom().contains(name) ==> exists|i: int|
            0 <= i < taps.len() && (#[trigger] taps[i]).name == name
}

/// The views of the addresses of a map of taps.
pub open spec fn url_views(urls: Map<Seq<char>, Option<String>>) -> Map<
    Seq<char>,
    Option<Seq<char>>,
> {
    urls.map_values(|url: Option<String>| optional_view(url))
}

impl HomebrewTap {
    /// Reads the address that the settings of a tap give, and makes the
    /// tap `name` with it.
    pub fn parse_config(name: String, config_value: &ConfigValue) -> (r: HomebrewTap)
        ensures
            r@ == (TapRequest { name: name@, url: url_given(*config_value) }),
    {
        let url = match config_value {
            ConfigValue::String(text) => Some(text.clone()),
            ConfigValue::Table(_) => config_value.get_as_str("url"),
            _ => None,
        };
        HomebrewTap { name, url }
    }

    /// Reads the tap that one item asks for; with a `name`, the item is
    /// the settings of the tap of that name.
    pub fn parse_tap(name: Option<String>, config_value: &ConfigValue) -> (r: Option<HomebrewTap>)
        ensures
            match name {
                Some(name) => r matches Some(tap) && tap@ == (TapRequest {
                    name: name@,
                    url: url_given(*config_value),
                }),
                None => match r {
                    Some(tap) => tap_of(*config_value) == Some(tap@),
                    None => tap_of(*config_value) is None,
                },
            },
    {
        if let Some(name) = name {
            return Some(Self::parse_config(name, config_value));
        }
        match config_value {
            ConfigValue::String(text) => Some(HomebrewTap { name: text.clone(), url: None }),
            ConfigValue::Table(entries) => {
                if let Some(repo) = config_value.get("repo") {
                    match repo.as_str() {
                        Some(name) => Some(
                            Self::parse_config(String::from_str(name), config_value),
                        ),
                        None => None,
                    }
                } else if entries.len() == 1 {
                    Some(Self::parse_config(entries[0].key.clone(), &entries[0].value))
                } else {
                    None
                }
            },
            _ => None,
        }
    }

    /// Reads the taps that `taps` asks for.
    pub fn parse_taps(taps: &ConfigValue) -> (r: Vec<HomebrewTap>)
        ensures
            tap_requests(r@) == taps_of(*taps),
    {
        let mut parsed: Vec<HomebrewTap> = Vec::new();
        match taps {
            ConfigValue::Array(items) => {
                let mut i: usize = 0;
                proof {
                    assert(tap_requests(parsed@) =~= taps_from(items@, 0));
                }
                while i < items.len()
                    invariant
                        i <= items.len(),
                        tap_requests(parsed@) == taps_from(items@, i as int),
                    decreases items.len() - i,
                {
                    let ghost before = tap_requests(parsed@);
                    if let Some(tap) = Self::parse_tap(None, &items[i]) {
                        parsed.push(tap);
                        proof {
                            assert(tap_requests(parsed@) =~= before.push(tap@));
                        }
                    }
                    i = i + 1;
                }
            },
            ConfigValue::Table(entries) => {
                let mut i: usize = 0;
                proof {
                    assert(tap_requests(parsed@) =~= taps_in(entries@, 0));
                }
                while i < entries.len()
                    invariant
                        i <= entries.len(),
                        tap_requests(parsed@) == taps_in(entries@, i as int),
                    decreases entries.len() - i,
                {
                    let ghost before = tap_requests(parsed@);
                    let tap = Self::parse_config(entries[i].key.clone(), &entries[i].value);
                    parsed.push(tap);
                    proof {
                        assert(tap_requests(parsed@) =~= before.push(tap@));
                    }
                    i = i + 1;
                }
            },
            ConfigValue::String(text) => {
                parsed.push(HomebrewTap { name: text.clone(), url: None });
                proof {
                    assert(tap_requests(parsed@) =~= taps_of(*taps));
                }
            },
            _ => {
                proof {
                    assert(tap_requests(parsed@) =~= taps_of(*taps));
                }
            },
        }
        parsed
    }

    /// The tap that the name of a package implies.
    pub fn implied_by(name: &str) -> (r: Option<String>)
        ensures
            optional_view(r) == implied_tap(name@),
    {
        let chars = characters(name);
        let mut count: usize = 0;
        let mut last: usize = 0;
        let mut i: usize = 0;
        while i < chars.len()
            invariant
                i <= chars.len(),
                chars@ == name@,
                count <= i,
                count == slash_count(name@, i as int),
                last == last_slash(name@, i as int),
                last <= i,
            decreases chars.len() - i,
        {
            if chars[i] == '/' {
                count = count + 1;
                last = i;
            }
            i = i + 1;
        }
        if count == 2 {
            Some(String::from_str(name.substring_char(0, last)))
        } else {
            None
        }
    }

    /// Reads the taps that a project needs: those that its configuration
    /// asks for under `tap`, and those that the names of `installs` imply.
    /// Each tap is there once, with the address that was given first for
    /// it, and the taps are sorted by name.
    pub fn from_config_value(config_value: Option<&ConfigValue>, installs: &Vec<HomebrewInstall>) -> (r:
        Vec<HomebrewTap>)
        ensures
            lists_taps(
                tap_requests(r@),
                taps_needed(
                    match config_value {
                        Some(value) => Some(*value),
                        None => None,
                    },
                    requests(installs@),
                ),
            ),
    {
        let ghost config = match config_value {
            Some(value) => Some(*value),
            None => None,
        };
        let mut asked: Vec<HomebrewTap> = Vec::new();
        proof {
            assert(tap_requests(asked@) =~= Seq::<TapRequest>::empty());
        }
        if let Some(value) = config_value {
            if let Some(taps) = value.get("tap") {
                asked = Self::parse_taps(taps);
            }
        }
        assert(tap_requests(asked@) == taps_asked(config));
        let mut k: usize = 0;
        proof {
            assert(tap_requests(asked@) + taps_implied(requests(installs@), 0) =~= tap_requests(
                asked@,
            ));
        }
        while k < installs.len()
            invariant
                k <= installs.len(),
                tap_requests(asked@) == taps_asked(config) + taps_implied(
                    requests(installs@),
                    k as int,
                ),
            decreases installs.len() - k,
        {
            let ghost before = tap_requests(asked@);
            proof {
                assert(requests(installs@)[k as int].name == installs@[k as int].name@);
            }
            if let Some(name) = Self::implied_by(installs[k].name.as_str()) {
                let tap = HomebrewTap { name, url: None };
                asked.push(tap);
                proof {
                    assert(tap_requests(asked@) =~= before.push(tap@));
                    assert(taps_asked(config) + taps_implied(requests(installs@), k as int).push(
                        tap@,
                    ) =~= (taps_asked(config) + taps_implied(requests(installs@), k as int)).push(
                        tap@,
                    ));
                }
            }
            k = k + 1;
        }
        let ghost all = tap_requests(asked@);
        let mut urls: StringMap<Option<String>> = StringMap::new();
        let mut i: usize = 0;
        proof {
            assert(url_views(urls@) =~= first_urls(all, 0));
        }
        while i < asked.len()
            invariant
                i <= asked.len(),
                all == tap_requests(asked@),
                url_views(urls@) == first_urls(all, i as int),
            decreases asked.len() - i,
        {
            let ghost before = urls@;
            proof {
                assert(all[i as int] == asked@[i as int]@);
                assert(url_views(before).dom() =~= before.dom());
            }
            if urls.get(asked[i].name.as_str()).is_none() {
                let url = clone_optional(&asked[i].url);
                urls.insert(asked[i].name.as_str(), url);
                proof {
                    assert(url_views(before.insert(asked@[i as int].name@, url)) =~= url_views(
                        before,
                    ).insert(asked@[i as int].name@, optional_view(url)));
                }
            }
            i = i + 1;
        }
        let names = urls.keys();
        let sorted = sorted_names(names);
        proof {
            lemma_sorted_distinct(views(sorted@), views(names@));
            assert(url_views(urls@).dom() =~= urls@.dom());
        }
        let mut taps: Vec<HomebrewTap> = Vec::new();
        let mut n: usize = 0;
        while n < sorted.len()
            invariant
                n <= sorted.len(),
                taps@.len() == n,
                views(sorted@).to_set() == urls@.dom(),
                forall|j: int|
                    0 <= j < n ==> (#[trigger] taps@[j]).name@ == sorted@[j]@ && optional_view(
                        taps@[j].url,
                    ) == optional_view(urls@[sorted@[j]@]),
            decreases sorted.len() - n,
        {
            proof {
                assert(views(sorted@)[n as int] == sorted@[n as int]@);
                assert(views(sorted@).contains(sorted@[n as int]@));
                assert(views(sorted@).to_set().contains(sorted@[n as int]@));
            }
            let url = match urls.get(sorted[n].as_str()) {
                Some(url) => clone_optional(url),
                None => None,
            };
            taps.push(HomebrewTap { name: sorted[n].clone(), url });
            n = n + 1;
        }
        proof {
            let listed = tap_requests(taps@);
            let wanted = url_views(urls@);
            assert forall|a: int, b: int| 0 <= a < b < listed.len() implies sequence_rank(
                codes(#[trigger] listed[a].name),
                codes(#[trigger] listed[b].name),
            ) < 0 by {
                assert(listed[a].name == views(sorted@)[a]);
                assert(listed[b].name == views(sorted@)[b]);
            }
            assert forall|a: int| 0 <= a < listed.len() implies wanted.dom().contains(
                #[trigger] listed[a].name,
            ) && wanted[listed[a].name] == listed[a].url by {
                assert(views(sorted@)[a] == sorted@[a]@);
                assert(views(sorted@).contains(sorted@[a]@));
                assert(views(sorted@).to_set().contains(sorted@[a]@));
            }
            assert forall|name: Seq<char>| #[trigger] wanted.dom().contains(name) implies exists|
                a: int,
            |
                0 <= a < listed.len() && (#[trigger] listed[a]).name == name by {
                assert(views(sorted@).to_set().contains(name));
                let a = choose|a: int| 0 <= a < views(sorted@).len() && views(sorted@)[a] == name;
                assert(listed[a].name == name);
            }
            assert(all == taps_asked(config) + taps_implied(
                requests(installs@),
                installs@.len() as int,
            ));
        }
        taps
    }
}

/// A sorted arrangement of texts that are all different holds the same
/// texts, each once, in strictly ascending order.
pub proof fn lemma_sorted_distinct(sorted: Seq<Seq<char>>, of: Seq<Seq<char>>)
    requires
        is_sorted_arrangement(sorted, of),
        of.no_duplicates(),
    ensures
        sorted.no_duplicates(),
        sorted.to_set() == of.to_set(),
        forall|i: int, j: int|
            0 <= i < j < sorted.len() ==> sequence_rank(
                codes(#[trigger] sorted[i]),
                codes(#[trigger] sorted[j]),
            ) < 0,
{
    of.lemma_multiset_has_no_duplicates();
    sorted.lemma_multiset_has_no_duplicates_conv();
    assert forall|text: Seq<char>| sorted.to_set().contains(text) <==> of.to_set().contains(
        text,
    ) by {
        vstd::seq_lib::to_multiset_contains(sorted, text);
        vstd::seq_lib::to_multiset_contains(of, text);
    }
    assert(sorted.to_set() =~= of.to_set());
    assert forall|i: int, j: int| 0 <= i < j < sorted.len() implies sequence_rank(
        codes(#[trigger] sorted[i]),
        codes(#[trigger] sorted[j]),
    ) < 0 by {
        lemma_sequence_rank_equal(codes(sorted[i]), codes(sorted[j]));
        if codes(sorted[i]) == codes(sorted[j]) {
            lemma_codes_tell_apart(sorted[i], sorted[j]);
        }
    }
}

impl UpConfigHomebrew {
    /// Reads the packages and taps that a project needs from its
    /// configuration.
    pub fn from_config_value(config_value: Option<&ConfigValue>) -> (r: UpConfigHomebrew)
        ensures
            requests(r.install@) == packages_asked(
                match config_value {
                    Some(value) => Some(*value),
                    None => None,
                },
            ),
            lists_taps(
                tap_requests(r.tap@),
                taps_needed(
                    match config_value {
                        Some(value) => Some(*value),
                        None => None,
                    },
                    requests(r.install@),
                ),
            ),
    {
        let install = HomebrewInstall::from_config_value(config_value);
        let tap = HomebrewTap::from_config_value(config_value, &install);
        UpConfigHomebrew { install, tap }
    }
}

} // verus!
