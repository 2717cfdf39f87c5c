//! Releases of a repository, and the choice of the one to install.

use vstd::prelude::*;
use vstd::string::*;
use crate::clock::{RunClock, Timestamp, NANOS_PER_SECOND};
use crate::consumers::ConsumerSet;
use crate::registry::{is_stale, require, require_changes, stale_at};
use crate::store::CacheObject;
use crate::string_map::StringMap;
use crate::text::same_text;
use crate::pattern::{capture, optional_view, pattern_capture, pattern_matches, token_pattern, Platform};
use crate::text::{contains_char, drop_tail, has_suffix, strip_suffix};
use crate::version::{ascending, at_most, version_at_most, version_rank};

verus! {

/// The kind of file that a release asset is.
#[derive(Debug, Clone, Copy, PartialEq, Eq, Structural)]
pub enum GithubReleaseAssetType {
    TarGz,
    Zip,
    Binary,
}

impl GithubReleaseAssetType {
    pub fn is_zip(&self) -> (r: bool)
        ensures
            r == (*self == GithubReleaseAssetType::Zip),
    {
        match self {
            GithubReleaseAssetType::Zip => true,
            _ => false,
        }
    }

    pub fn is_tgz(&self) -> (r: bool)
        ensures
            r == (*self == GithubReleaseAssetType::TarGz),
    {
        match self {
            GithubReleaseAssetType::TarGz => true,
            _ => false,
        }
    }

    pub fn is_binary(&self) -> (r: bool)
        ensures
            r == (*self == GithubReleaseAssetType::Binary),
    {
        match self {
            GithubReleaseAssetType::Binary => true,
            _ => false,
        }
    }
}

/// The kind of a file called `name`, with the name that is left once the
/// archive extension is taken off; `None` for a file of no known kind. The
/// first rule that applies decides.
pub open spec fn classify(name: Seq<char>) -> Option<(GithubReleaseAssetType, Seq<char>)> {
    if has_suffix(name, ".tar.gz"@) {
        Some((GithubReleaseAssetType::TarGz, drop_tail(name, ".tar.gz"@.len())))
    } else if has_suffix(name, ".tgz"@) {
        Some((GithubReleaseAssetType::TarGz, drop_tail(name, ".tgz"@.len())))
    } else if has_suffix(name, ".zip"@) {
        Some((GithubReleaseAssetType::Zip, drop_tail(name, ".zip"@.len())))
    } else if has_suffix(name, ".exe"@) {
        Some((GithubReleaseAssetType::Binary, name))
    } else if !name.contains('.') {
        Some((GithubReleaseAssetType::Binary, name))
    } else {
        None
    }
}

/// The view of an optional kind and name.
pub open spec fn kind_view(value: Option<(GithubReleaseAssetType, String)>) -> Option<
    (GithubReleaseAssetType, Seq<char>),
> {
    match value {
        Some((kind, name)) => Some((kind, name@)),
        None => None,
    }
}

/// A file attached to a release.
#[derive(Debug)]
pub struct GithubReleaseAsset {
    pub name: String,
    pub browser_download_url: String,
    pub state: String,
    pub content_type: String,
    pub size: u64,
}

impl Clone for GithubReleaseAsset {
    fn clone(&self) -> (r: Self)
        ensures
            r == *self,
    {
        GithubReleaseAsset {
            name: self.name.clone(),
            browser_download_url: self.browser_download_url.clone(),
            state: self.state.clone(),
            content_type: self.content_type.clone(),
            size: self.size,
        }
    }
}

impl GithubReleaseAsset {
    /// The kind of the file, and its name without the archive extension.
    pub fn file_type(&self) -> (r: Option<(GithubReleaseAssetType, String)>)
        ensures
            kind_view(r) == classify(self.name@),
    {
        let name = self.name.as_str();
        if let Some(stem) = strip_suffix(name, ".tar.gz") {
            return Some((GithubReleaseAssetType::TarGz, stem));
        }
        if let Some(stem) = strip_suffix(name, ".tgz") {
            return Some((GithubReleaseAssetType::TarGz, stem));
        }
        if let Some(stem) = strip_suffix(name, ".zip") {
            return Some((GithubReleaseAssetType::Zip, stem));
        }
        if crate::text::ends_with(name, ".exe") {
            return Some((GithubReleaseAssetType::Binary, self.name.clone()));
        }
        if !contains_char(name, '.') {
            return Some((GithubReleaseAssetType::Binary, self.name.clone()));
        }
        None
    }

    /// The name of the file without the platform's names, `version` and the
    /// separators that they leave behind.
    pub fn clean_name(&self, version: &str, platform: &Platform) -> (r: String)
        ensures
            r@ == platform.cleaned(self.name@, version@),
    {
        platform.clean(self.name.as_str(), version)
    }

    /// Whether the file can be installed on `platform`: it is of a known
    /// kind, a bare binary only where `binary` allows one, and its name holds
    /// one of the operating-system names and one of the architecture names.
    pub open spec fn fits(self, binary: bool, platform: Platform) -> bool {
        match classify(self.name@) {
            Some((kind, _)) => {
                &&& kind == GithubReleaseAssetType::Binary ==> binary
                &&& pattern_matches(token_pattern(platform.os_tokens()), self.name@)
                &&& pattern_matches(token_pattern(platform.arch_tokens()), self.name@)
            },
            None => false,
        }
    }

    /// Decides `fits`.
    pub fn is_compatible(&self, binary: bool, platform: &Platform) -> (r: bool)
        ensures
            r == self.fits(binary, *platform),
    {
        match self.file_type() {
            Some((kind, _)) => {
                if kind.is_binary() && !binary {
                    return false;
                }
            },
            None => {
                return false;
            },
        }
        platform.names_os(self.name.as_str()) && platform.names_arch(self.name.as_str())
    }
}

/// The pattern that reads a version off the end of a tag: a prefix without
/// digits, then dotted numbers and an optional suffix behind a `-`.
pub open spec fn version_pattern() -> Seq<char> {
    "^(?P<prefix>[^0-9]*)(?P<version>\\d+(?:\\.\\d+)*(?:\\-[\\w\\d_-]+)?)$"@
}

/// The version that a tag stands for: what the group `version` of
/// `version_pattern` holds, or the whole tag where the pattern finds none.
pub open spec fn extracted_version(tag: Seq<char>) -> Seq<char> {
    match pattern_capture(version_pattern(), "version"@, tag) {
        Some(version) => version,
        None => tag,
    }
}

/// The version of a tag, given what the version pattern captured in it: the
/// capture, or the tag itself where there is none.
pub fn version_from_capture(tag: &str, captured: Option<String>) -> (r: String)
    ensures
        r@ == match captured {
            Some(version) => version@,
            None => tag@,
        },
{
    match captured {
        Some(version) => version,
        None => String::from_str(tag),
    }
}

/// One release of a repository.
#[derive(Debug)]
pub struct GithubReleaseVersion {
    pub tag_name: String,
    pub name: String,
    pub draft: bool,
    pub prerelease: bool,
    pub assets: Vec<GithubReleaseAsset>,
}

/// A copy of `assets`.
pub fn clone_assets(assets: &Vec<GithubReleaseAsset>) -> (r: Vec<GithubReleaseAsset>)
    ensures
        r@ == assets@,
{
    let mut out: Vec<GithubReleaseAsset> = Vec::new();
    let mut i: usize = 0;
    while i < assets.len()
        invariant
            i <= assets.len(),
            out@ == assets@.subrange(0, i as int),
        decreases assets.len() - i,
    {
        out.push(assets[i].clone());
        i = i + 1;
    }
    proof {
        assert(assets@.subrange(0, assets.len() as int) == assets@);
    }
    out
}

impl Clone for GithubReleaseVersion {
    fn clone(&self) -> (r: Self)
        ensures
            r.tag_name == self.tag_name,
            r.name == self.name,
            r.draft == self.draft,
            r.prerelease == self.prerelease,
            r.assets@ == self.assets@,
    {
        GithubReleaseVersion {
            tag_name: self.tag_name.clone(),
            name: self.name.clone(),
            draft: self.draft,
            prerelease: self.prerelease,
            assets: clone_assets(&self.assets),
        }
    }
}

impl GithubReleaseVersion {
    /// The version that the release's tag stands for.
    pub open spec fn version_text(self) -> Seq<char> {
        extracted_version(self.tag_name@)
    }

    /// The version that the release's tag stands for.
    pub fn version(&self) -> (r: String)
        ensures
            r@ == self.version_text(),
    {
        let captured = capture(
            "^(?P<prefix>[^0-9]*)(?P<version>\\d+(?:\\.\\d+)*(?:\\-[\\w\\d_-]+)?)$",
            "version",
            self.tag_name.as_str(),
        );
        version_from_capture(self.tag_name.as_str(), captured)
    }

    /// The assets of the release that can be installed on `platform`, in
    /// their order.
    pub open spec fn fitting_assets(self, binary: bool, platform: Platform) -> Seq<
        GithubReleaseAsset,
    > {
        self.assets@.filter(|asset: GithubReleaseAsset| asset.fits(binary, platform))
    }

    /// The assets of the release that can be installed on `platform`.
    pub fn matching_assets(&self, binary: bool, platform: &Platform) -> (r: Vec<
        GithubReleaseAsset,
    >)
        ensures
            r@ == self.fitting_assets(binary, *platform),
    {
        let ghost fits = |asset: GithubReleaseAsset| asset.fits(binary, *platform);
        let mut out: Vec<GithubReleaseAsset> = Vec::new();
        let mut i: usize = 0;
        proof {
            assert(self.assets@.subrange(0, 0) == Seq::<GithubReleaseAsset>::empty());
            reveal(Seq::filter);
        }
        while i < self.assets.len()
            invariant
                i <= self.assets.len(),
                fits == |asset: GithubReleaseAsset| asset.fits(binary, *platform),
                out@ == self.assets@.subrange(0, i as int).filter(fits),
            decreases self.assets.len() - i,
        {
            proof {
                let before = self.assets@.subrange(0, i as int);
                assert(self.assets@.subrange(0, i + 1) == before.push(self.assets@[i as int]));
                before.lemma_filter_push(self.assets@[i as int], fits);
            }
            if self.assets[i].is_compatible(binary, platform) {
                out.push(self.assets[i].clone());
            }
            i = i + 1;
        }
        proof {
            assert(self.assets@.subrange(0, self.assets.len() as int) == self.assets@);
        }
        out
    }

    /// Whether the release may be chosen: it is no draft, it is a
    /// prerelease only where `prerelease` allows one, its version was
    /// `accepted` by the constraint, and one of its assets fits the platform.
    pub open spec fn eligible(
        self,
        accepted: bool,
        prerelease: bool,
        binary: bool,
        platform: Platform,
    ) -> bool {
        &&& !self.draft
        &&& prerelease || !self.prerelease
        &&& accepted
        &&& self.fitting_assets(binary, platform).len() > 0
    }

    /// Whether `narrowed` is this release with only the assets that fit.
    pub open spec fn narrowed_to(
        self,
        narrowed: GithubReleaseVersion,
        binary: bool,
        platform: Platform,
    ) -> bool {
        &&& narrowed.tag_name == self.tag_name
        &&& narrowed.name == self.name
        &&& narrowed.draft == self.draft
        &&& narrowed.prerelease == self.prerelease
        &&& narrowed.assets@ == self.fitting_assets(binary, platform)
    }
}

/// The views of a vector of optional versions.
pub open spec fn candidate_views(candidates: Seq<Option<String>>) -> Seq<Option<Seq<char>>> {
    Seq::new(candidates.len(), |i: int| optional_view(candidates[i]))
}

/// Whether the candidate at `index` is the one to choose: it is there, no
/// candidate is a higher version, and every later one is a lower version.
pub open spec fn is_best(candidates: Seq<Option<Seq<char>>>, index: int) -> bool {
    &&& 0 <= index < candidates.len()
    &&& candidates[index] is Some
    &&& forall|j: int|
        0 <= j < candidates.len() && candidates[j] is Some ==> version_at_most(
            #[trigger] candidates[j].unwrap(),
            candidates[index].unwrap(),
        )
    &&& forall|j: int|
        index < j < candidates.len() && candidates[j] is Some ==> version_rank(
            #[trigger] candidates[j].unwrap(),
            candidates[index].unwrap(),
        ) < 0
}

/// Only one candidate can be the one to choose.
pub proof fn lemma_best_is_unique(candidates: Seq<Option<Seq<char>>>, first: int, second: int)
    requires
        is_best(candidates, first),
        is_best(candidates, second),
    ensures
        first == second,
{
    if first < second {
        crate::version::lemma_version_order_total(
            candidates[first].unwrap(),
            candidates[second].unwrap(),
        );
    } else if second < first {
        crate::version::lemma_version_order_total(
            candidates[second].unwrap(),
            candidates[first].unwrap(),
        );
    }
}

/// The index of the highest version among the candidates that are there;
/// of several that are equally high, the last.
pub fn best_candidate(candidates: &Vec<Option<String>>) -> (r: Option<usize>)
    ensures
        match r {
            Some(index) => is_best(candidate_views(candidates@), index as int),
            None => forall|j: int| 0 <= j < candidates.len() ==> candidates@[j] is None,
        },
{
    let ghost all = candidate_views(candidates@);
    let mut best: Option<usize> = None;
    let mut i: usize = 0;
    while i < candidates.len()
        invariant
            i <= candidates.len(),
            all == candidate_views(candidates@),
            match best {
                Some(index) => is_best(all.subrange(0, i as int), index as int),
                None => forall|j: int| 0 <= j < i ==> candidates@[j] is None,
            },
        decreases candidates.len() - i,
    {
        let ghost seen = all.subrange(0, i as int);
        let ghost next = all.subrange(0, i + 1);
        match &candidates[i] {
            Some(version) => {
                match best {
                    Some(index) => {
                        let current = match &candidates[index] {
                            Some(held) => held.as_str(),
                            None => "",
                        };
                        proof {
                            assert(seen[index as int] is Some);
                            assert(current@ == seen[index as int].unwrap());
                            assert(next[i as int].unwrap() == version@);
                        }
                        if at_most(current, version.as_str()) {
                            proof {
                                assert forall|j: int|
                                    0 <= j < next.len() && next[j] is Some implies version_at_most(
                                    #[trigger] next[j].unwrap(),
                                    next[i as int].unwrap(),
                                ) by {
                                    if j < i {
                                        assert(seen[j] == next[j]);
                                        crate::version::lemma_version_order_transitive(
                                            next[j].unwrap(),
                                            current@,
                                            version@,
                                        );
                                    } else {
                                        crate::version::lemma_version_order_total(
                                            version@,
                                            version@,
                                        );
                                    }
                                }
                            }
                            best = Some(i);
                        } else {
                            proof {
                                crate::version::lemma_version_order_total(current@, version@);
                                assert forall|j: int|
                                    0 <= j < next.len() && next[j] is Some implies version_at_most(
                                    #[trigger] next[j].unwrap(),
                                    next[index as int].unwrap(),
                                ) by {
                                    if j < i {
                                        assert(seen[j] == next[j]);
                                    }
                                }
                                assert forall|j: int|
                                    index < j < next.len() && next[j] is Some implies version_rank(
                                    #[trigger] next[j].unwrap(),
                                    next[index as int].unwrap(),
                                ) < 0 by {
                                    if j < i {
                                        assert(seen[j] == next[j]);
                                    }
                                }
                            }
                        }
                    },
                    None => {
                        proof {
                            crate::version::lemma_version_order_total(version@, version@);
                            assert forall|j: int|
                                0 <= j < next.len() && next[j] is Some implies version_at_most(
                                #[trigger] next[j].unwrap(),
                                next[i as int].unwrap(),
                            ) by {
                                if j < i {
                                    assert(candidates@[j] is None);
                                }
                            }
                        }
                        best = Some(i);
                    },
                }
            },
            None => {
                proof {
                    match best {
                        Some(index) => {
                            assert forall|j: int|
                                0 <= j < next.len() && next[j] is Some implies version_at_most(
                                #[trigger] next[j].unwrap(),
                                next[index as int].unwrap(),
                            ) by {
                                assert(seen[j] == next[j]);
                            }
                            assert forall|j: int|
                                index < j < next.len() && next[j] is Some implies version_rank(
                                #[trigger] next[j].unwrap(),
                                next[index as int].unwrap(),
                            ) < 0 by {
                                assert(seen[j] == next[j]);
                            }
                        },
                        None => {},
                    }
                }
            },
        }
        i = i + 1;
    }
    proof {
        assert(all.subrange(0, candidates.len() as int) == all);
    }
    best
}

/// Whether `matcher`, asked whether `candidate` meets `constraint`, may
/// have given `answer`.
pub open spec fn answered<F: Fn(&str, &str, bool) -> bool>(
    matcher: F,
    constraint: &str,
    candidate: Seq<char>,
    prerelease: bool,
    answer: bool,
) -> bool {
    exists|text: &str|
        text@ == candidate && #[trigger] call_ensures(
            matcher,
            (constraint, text, prerelease),
            answer,
        )
}

/// The releases of a repository, as they were last fetched.
#[derive(Debug)]
pub struct GithubReleases {
    pub releases: Vec<GithubReleaseVersion>,
    pub fetched_at: Timestamp,
}

impl Clone for GithubReleases {
    fn clone(&self) -> (r: Self)
        ensures
            r.fetched_at == self.fetched_at,
            r.releases@.len() == self.releases@.len(),
            forall|i: int|
                0 <= i < self.releases@.len() ==> {
                    &&& (#[trigger] r.releases@[i]).tag_name == self.releases@[i].tag_name
                    &&& r.releases@[i].name == self.releases@[i].name
                    &&& r.releases@[i].draft == self.releases@[i].draft
                    &&& r.releases@[i].prerelease == self.releases@[i].prerelease
                    &&& r.releases@[i].assets@ == self.releases@[i].assets@
                },
    {
        let mut out: Vec<GithubReleaseVersion> = Vec::new();
        let mut i: usize = 0;
        while i < self.releases.len()
            invariant
                i <= self.releases.len(),
                out@.len() == i,
                forall|j: int|
                    0 <= j < i ==> {
                        &&& (#[trigger] out@[j]).tag_name == self.releases@[j].tag_name
                        &&& out@[j].name == self.releases@[j].name
                        &&& out@[j].draft == self.releases@[j].draft
                        &&& out@[j].prerelease == self.releases@[j].prerelease
                        &&& out@[j].assets@ == self.releases@[j].assets@
                    },
            decreases self.releases.len() - i,
        {
            out.push(self.releases[i].clone());
            i = i + 1;
        }
        GithubReleases { releases: out, fetched_at: self.fetched_at }
    }
}

impl GithubReleases {
    /// The releases, fetched at `fetched_at`.
    pub fn new(releases: Vec<GithubReleaseVersion>, fetched_at: Timestamp) -> (r: GithubReleases)
        ensures
            r.releases == releases,
            r.fetched_at == fetched_at,
    {
        GithubReleases { releases, fetched_at }
    }

    /// Whether the list is older than `ttl` seconds at the instant `now`.
    pub fn is_stale(&self, ttl: u64, now: &Timestamp) -> (r: bool)
        ensures
            r == (self.fetched_at.nanos + ttl * NANOS_PER_SECOND < now.nanos),
    {
        self.fetched_at.elapsed(ttl, now)
    }

    /// Whether the constraint accepted the version of the release at `index`.
    pub open spec fn accepted_at(accepted: Seq<bool>, index: int) -> bool {
        0 <= index < accepted.len() && accepted[index]
    }

    /// For each release its version if it may be chosen, `None` if not.
    pub open spec fn candidates(
        self,
        accepted: Seq<bool>,
        prerelease: bool,
        binary: bool,
        platform: Platform,
    ) -> Seq<Option<Seq<char>>> {
        Seq::new(
            self.releases@.len(),
            |i: int|
                if self.releases@[i].eligible(
                    Self::accepted_at(accepted, i),
                    prerelease,
                    binary,
                    platform,
                ) {
                    Some(self.releases@[i].version_text())
                } else {
                    None
                },
        )
    }

    /// Whether `outcome` is what resolving gives: nothing where no release
    /// may be chosen, else the best candidate's version and that release
    /// with only the assets that fit.
    pub open spec fn resolves_to(
        self,
        accepted: Seq<bool>,
        prerelease: bool,
        binary: bool,
        platform: Platform,
        outcome: Option<(String, GithubReleaseVersion)>,
    ) -> bool {
        let candidates = self.candidates(accepted, prerelease, binary, platform);
        match outcome {
            Some((version, release)) => exists|index: int|
                {
                    &&& #[trigger] is_best(candidates, index)
                    &&& version@ == self.releases@[index].version_text()
                    &&& self.releases@[index].narrowed_to(release, binary, platform)
                },
            None => forall|j: int| 0 <= j < candidates.len() ==> candidates[j] is None,
        }
    }

    /// Chooses the release to install, given for each release whether the
    /// version constraint accepted its version (a release without an entry
    /// in `accepted` counts as not accepted).
    pub fn select(
        &self,
        accepted: &Vec<bool>,
        prerelease: bool,
        binary: bool,
        platform: &Platform,
    ) -> (r: Option<(String, GithubReleaseVersion)>)
        ensures
            self.resolves_to(accepted@, prerelease, binary, *platform, r),
    {
        let ghost wanted = self.candidates(accepted@, prerelease, binary, *platform);
        let mut candidates: Vec<Option<String>> = Vec::new();
        let mut i: usize = 0;
        while i < self.releases.len()
            invariant
                i <= self.releases.len(),
                wanted == self.candidates(accepted@, prerelease, binary, *platform),
                candidates@.len() == i,
                forall|j: int| 0 <= j < i ==> optional_view(#[trigger] candidates@[j]) == wanted[j],
            decreases self.releases.len() - i,
        {
            let release = &self.releases[i];
            let mut candidate: Option<String> = None;
            if !release.draft && (prerelease || !release.prerelease) && i < accepted.len()
                && accepted[i] {
                let assets = release.matching_assets(binary, platform);
                if assets.len() > 0 {
                    candidate = Some(release.version());
                }
            }
            candidates.push(candidate);
            i = i + 1;
        }
        proof {
            assert(candidate_views(candidates@) == wanted);
        }
        match best_candidate(&candidates) {
            Some(index) => {
                let release = &self.releases[index];
                let narrowed = GithubReleaseVersion {
                    tag_name: release.tag_name.clone(),
                    name: release.name.clone(),
                    draft: release.draft,
                    prerelease: release.prerelease,
                    assets: release.matching_assets(binary, platform),
                };
                let version = release.version();
                proof {
                    assert(is_best(wanted, index as int));
                }
                Some((version, narrowed))
            },
            None => {
                proof {
                    assert forall|j: int| 0 <= j < wanted.len() implies wanted[j] is None by {
                        assert(optional_view(candidates@[j]) == wanted[j]);
                    }
                }
                None
            },
        }
    }

    /// Whether `accepted` holds, for each release that is no draft and whose
    /// prerelease state is allowed, an answer that `matcher` may have given
    /// on that release's version.
    pub open spec fn answers<F: Fn(&str, &str, bool) -> bool>(
        self,
        matcher: F,
        constraint: &str,
        prerelease: bool,
        accepted: Seq<bool>,
    ) -> bool {
        &&& accepted.len() == self.releases@.len()
        &&& forall|i: int|
            0 <= i < self.releases@.len() && !self.releases@[i].draft && (prerelease
                || !self.releases@[i].prerelease) ==> answered(
                matcher,
                constraint,
                self.releases@[i].version_text(),
                prerelease,
                #[trigger] accepted[i],
            )
    }

    /// Resolves the release to install for the constraint `version`: asks
    /// `version_match` about the version of each release that is no draft
    /// and whose prerelease state is allowed, then chooses among the
    /// accepted releases as `select` does.
    pub fn get<F: Fn(&str, &str, bool) -> bool>(
        &self,
        version: &str,
        prerelease: bool,
        binary: bool,
        platform: &Platform,
        version_match: F,
    ) -> (r: Option<(String, GithubReleaseVersion)>)
        requires
            forall|candidate: &str| call_requires(version_match, (version, candidate, prerelease)),
        ensures
            exists|accepted: Seq<bool>|
                {
                    &&& #[trigger] self.answers(version_match, version, prerelease, accepted)
                    &&& self.resolves_to(accepted, prerelease, binary, *platform, r)
                },
    {
        let mut accepted: Vec<bool> = Vec::new();
        let mut i: usize = 0;
        while i < self.releases.len()
            invariant
                i <= self.releases.len(),
                accepted@.len() == i,
                forall|candidate: &str|
                    call_requires(version_match, (version, candidate, prerelease)),
                forall|j: int|
                    0 <= j < i && !self.releases@[j].draft && (prerelease
                        || !self.releases@[j].prerelease) ==> answered(
                        version_match,
                        version,
                        self.releases@[j].version_text(),
                        prerelease,
                        #[trigger] accepted@[j],
                    ),
            decreases self.releases.len() - i,
        {
            let release = &self.releases[i];
            let mut answer = false;
            if !release.draft && (prerelease || !release.prerelease) {
                let candidate = release.version();
                let text = candidate.as_str();
                answer = version_match(version, text, prerelease);
                proof {
                    assert(call_ensures(version_match, (version, text, prerelease), answer));
                }
            }
            accepted.push(answer);
            i = i + 1;
        }
        let r = self.select(&accepted, prerelease, binary, platform);
        proof {
            assert(self.answers(version_match, version, prerelease, accepted@));
        }
        r
    }
}

/// A release that was installed, with the working directories that
/// require it.
#[derive(Debug)]
pub struct GithubReleaseInstalled {
    pub repository: String,
    pub version: String,
    pub required_by: ConsumerSet,
    pub last_required_at: Timestamp,
}

impl GithubReleaseInstalled {
    /// Whether nobody required the release since the run of `clock` started.
    pub fn stale(&self, clock: &RunClock) -> (r: bool)
        ensures
            r == stale_at(self.last_required_at, *clock),
    {
        is_stale(&self.last_required_at, clock)
    }

    /// Whether this is the record of `version` of `repository`.
    pub open spec fn names(self, repository: Seq<char>, version: Seq<char>) -> bool {
        self.repository@ == repository && self.version@ == version
    }
}

/// The first record of `version` of `repository` among `records`, if any.
pub open spec fn installed_position(
    records: Seq<GithubReleaseInstalled>,
    repository: Seq<char>,
    version: Seq<char>,
    index: Option<int>,
) -> bool {
    match index {
        Some(i) => 0 <= i < records.len() && records[i].names(repository, version) && forall|
            j: int,
        |
            0 <= j < i ==> !(#[trigger] records[j]).names(repository, version),
        None => forall|j: int|
            0 <= j < records.len() ==> !(#[trigger] records[j]).names(repository, version),
    }
}

/// What is known of the releases of repositories: those that were installed
/// and for whom, and the release lists that were fetched.
#[derive(Debug)]
pub struct GithubReleaseOperationCache {
    pub installed: Vec<GithubReleaseInstalled>,
    pub releases: StringMap<GithubReleases>,
    pub updated_at: Timestamp,
}

impl GithubReleaseOperationCache {
    /// Whether the cache holds nothing.
    pub fn is_empty(&self) -> (r: bool)
        ensures
            r == (self.installed@.len() == 0 && self.releases@ == Map::<
                Seq<char>,
                GithubReleases,
            >::empty()),
    {
        self.installed.len() == 0 && self.releases.is_empty()
    }

    /// Marks the cache as updated at `now`.
    pub fn updated(&mut self, now: Timestamp)
        ensures
            final(self).updated_at == now,
            final(self).installed == old(self).installed,
            final(self).releases == old(self).releases,
    {
        self.updated_at = now;
    }

    /// Holds `releases` as the releases of `repository`, and marks the cache
    /// as updated at the start of the run. Always a change.
    pub fn add_releases(&mut self, repository: &str, releases: GithubReleases, clock: &RunClock) -> (r:
        bool)
        ensures
            r,
            final(self).releases@ == old(self).releases@.insert(repository@, releases),
            final(self).installed == old(self).installed,
            final(self).updated_at == clock.now,
    {
        self.releases.insert(repository, releases);
        self.updated(clock.now);
        true
    }

    /// The releases held for `repository`.
    pub fn get_releases(&self, repository: &str) -> (r: Option<&GithubReleases>)
        ensures
            r is Some <==> self.releases@.dom().contains(repository@),
            r is Some ==> *r.unwrap() == self.releases@[repository@],
    {
        self.releases.get(repository)
    }

    /// Where the first record of `version` of `repository` stands.
    pub fn find_installed(&self, repository: &str, version: &str) -> (r: Option<usize>)
        ensures
            installed_position(
                self.installed@,
                repository@,
                version@,
                match r {
                    Some(i) => Some(i as int),
                    None => None,
                },
            ),
    {
        let mut i: usize = 0;
        while i < self.installed.len()
            invariant
                i <= self.installed.len(),
                forall|j: int|
                    0 <= j < i ==> !(#[trigger] self.installed@[j]).names(repository@, version@),
            decreases self.installed.len() - i,
        {
            if same_text(self.installed[i].repository.as_str(), repository) && same_text(
                self.installed[i].version.as_str(),
                version,
            ) {
                return Some(i);
            }
            i = i + 1;
        }
        None
    }

    /// What `add_installed` does to the records, and whether it reports a
    /// change: the first record of the release gains the working directory,
    /// and counts as required now where that changes it; without such a
    /// record, one is appended.
    pub open spec fn installed_after_add(
        before: Seq<GithubReleaseInstalled>,
        after: Seq<GithubReleaseInstalled>,
        changed: bool,
        workdir_id: Seq<char>,
        repository: Seq<char>,
        version: Seq<char>,
        clock: RunClock,
    ) -> bool {
        exists|index: Option<int>|
            #![trigger installed_position(before, repository, version, index)]
            installed_position(before, repository, version, index) && match index {
                Some(i) => {
                    &&& after.len() == before.len()
                    &&& forall|j: int| 0 <= j < before.len() && j != i ==> after[j] == before[j]
                    &&& after[i].repository == before[i].repository
                    &&& after[i].version == before[i].version
                    &&& after[i].required_by@ == before[i].required_by@.insert(workdir_id)
                    &&& ascending(after[i].required_by.order())
                    &&& changed == require_changes(
                        before[i].required_by@,
                        before[i].last_required_at,
                        workdir_id,
                        clock,
                    )
                    &&& after[i].last_required_at == if changed {
                        clock.now
                    } else {
                        before[i].last_required_at
                    }
                    &&& !stale_at(after[i].last_required_at, clock)
                },
                None => {
                    &&& changed
                    &&& after.len() == before.len() + 1
                    &&& forall|j: int| 0 <= j < before.len() ==> after[j] == before[j]
                    &&& after[before.len() as int].names(repository, version)
                    &&& after[before.len() as int].required_by@ == Set::<Seq<char>>::empty().insert(
                        workdir_id,
                    )
                    &&& after[before.len() as int].required_by.order() == seq![workdir_id]
                    &&& after[before.len() as int].last_required_at == clock.now
                },
            }
    }

    /// Notes that the working directory `workdir_id` requires `version` of
    /// `repository` during the run of `clock`. Says whether the cache
    /// changed; where it did, it is marked as updated at the start of the
    /// run.
    pub fn add_installed(
        &mut self,
        workdir_id: &str,
        repository: &str,
        version: &str,
        clock: &RunClock,
    ) -> (r: bool)
        ensures
            Self::installed_after_add(
                old(self).installed@,
                final(self).installed@,
                r,
                workdir_id@,
                repository@,
                version@,
                *clock,
            ),
            final(self).releases == old(self).releases,
            final(self).updated_at == if r {
                clock.now
            } else {
                old(self).updated_at
            },
    {
        let ghost before = self.installed@;
        let found = self.find_installed(repository, version);
        let inserted = match found {
            Some(i) => {
                let mut record = self.installed.remove(i);
                let changed = require(
                    &mut record.required_by,
                    &mut record.last_required_at,
                    workdir_id,
                    clock,
                );
                self.installed.insert(i, record);
                changed
            },
            None => {
                let mut required_by = ConsumerSet::new();
                required_by.insert(workdir_id);
                self.installed.push(
                    GithubReleaseInstalled {
                        repository: String::from_str(repository),
                        version: String::from_str(version),
                        required_by,
                        last_required_at: clock.now,
                    },
                );
                true
            },
        };
        proof {
            let index = match found {
                Some(i) => Some(i as int),
                None => None,
            };
            assert(installed_position(before, repository@, version@, index));
        }
        if inserted {
            self.updated_at = clock.now;
        }
        inserted
    }
}

impl CacheObject for GithubReleaseOperationCache {
    open spec fn updated_at(&self) -> Timestamp {
        self.updated_at
    }

    open spec fn same_content(&self, other: &Self) -> bool {
        self.installed == other.installed && self.releases == other.releases
    }

    open spec fn holds_nothing(&self) -> bool {
        self.installed@.len() == 0 && self.releases@ == Map::<Seq<char>, GithubReleases>::empty()
    }

    fn new_empty() -> (r: Self) {
        GithubReleaseOperationCache {
            installed: Vec::new(),
            releases: StringMap::new(),
            updated_at: Timestamp::origin(),
        }
    }

    fn stamp(&mut self, now: Timestamp) {
        self.updated_at = now;
    }

    fn last_updated(&self) -> (r: Timestamp) {
        self.updated_at
    }
}

} // verus!
