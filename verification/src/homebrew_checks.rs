//! What is remembered of the package manager between runs, to spare it
//! questions: when its data and each package were last brought up to date
//! and looked at, and where the commands of each package are.

use vstd::prelude::*;
use vstd::string::*;
use crate::clock::{Timestamp, NANOS_PER_SECOND};
use crate::homebrew::package_id_text;
use crate::path_repo_updates::clone_optional;
use crate::pattern::optional_view;
use crate::registry::{InstalledResource, ResourceKind};
use crate::string_map::StringMap;
use crate::text::views;

verus! {

/// The key under which a package is remembered: its kind, and the name
/// under which the package manager knows it.
pub open spec fn install_key_text(cask: bool, name: Seq<char>, version: Option<Seq<char>>) -> Seq<
    char,
> {
    if cask {
        "cask:"@ + package_id_text(name, version)
    } else {
        "formula:"@ + package_id_text(name, version)
    }
}

/// The key under which the package of a record is remembered.
pub open spec fn record_key_text(record: InstalledResource) -> Seq<char> {
    install_key_text(record.kind == ResourceKind::Cask, record.name@, optional_view(record.version))
}

/// Writes the key under which a package is remembered.
pub fn install_key(cask: bool, name: &str, version: &Option<String>) -> (r: String)
    ensures
        r@ == install_key_text(cask, name@, optional_view(*version)),
{
    let mut key = if cask {
        String::from_str("cask:")
    } else {
        String::from_str("formula:")
    };
    key.append(name);
    if let Some(version) = version {
        key.append("@");
        key.append(version.as_str());
    }
    key
}

/// When a package was last brought up to date, and when it was last seen
/// to be installed.
#[derive(Debug, Clone, Copy, PartialEq, Eq, Structural)]
pub struct InstallStamps {
    pub updated_at: Timestamp,
    pub checked_at: Timestamp,
}

/// What is remembered of the package manager between runs.
#[derive(Debug)]
pub struct HomebrewOperationUpdateCache {
    /// When the package manager's own data was last brought up to date.
    pub homebrew_updated_at: Timestamp,
    /// The directory of the package manager's own commands.
    pub homebrew_bin_path: Option<String>,
    /// The stamps of each package, by its key.
    pub installs: StringMap<InstallStamps>,
    /// The directories of the commands of each package, by its key.
    pub bin_paths: StringMap<Vec<String>>,
}

/// `map` without the keys of the first `upto` of `records`.
pub open spec fn without_records<V>(
    map: Map<Seq<char>, V>,
    records: Seq<InstalledResource>,
    upto: int,
) -> Map<Seq<char>, V>
    decreases upto,
{
    if upto <= 0 || upto > records.len() {
        map
    } else {
        without_records(map, records, upto - 1).remove(record_key_text(records[upto - 1]))
    }
}

impl HomebrewOperationUpdateCache {
    /// Whether nothing is remembered.
    pub open spec fn is_blank(self) -> bool {
        &&& self.homebrew_updated_at.nanos == 0
        &&& self.homebrew_bin_path is None
        &&& self.installs@ == Map::<Seq<char>, InstallStamps>::empty()
        &&& self.bin_paths@ == Map::<Seq<char>, Vec<String>>::empty()
    }

    pub fn new() -> (r: HomebrewOperationUpdateCache)
        ensures
            r.is_blank(),
    {
        HomebrewOperationUpdateCache {
            homebrew_updated_at: Timestamp::origin(),
            homebrew_bin_path: None,
            installs: StringMap::new(),
            bin_paths: StringMap::new(),
        }
    }

    /// Whether nothing is remembered.
    pub fn is_empty(&self) -> (r: bool)
        ensures
            r == self.is_blank(),
    {
        self.homebrew_updated_at.is_origin() && self.homebrew_bin_path.is_none()
            && self.installs.is_empty() && self.bin_paths.is_empty()
    }

    /// Notes that the package manager's data was brought up to date at
    /// `now`.
    pub fn updated_homebrew(&mut self, now: Timestamp)
        ensures
            final(self).homebrew_updated_at == now,
            final(self).homebrew_bin_path == old(self).homebrew_bin_path,
            final(self).installs == old(self).installs,
            final(self).bin_paths == old(self).bin_paths,
    {
        self.homebrew_updated_at = now;
    }

    /// Whether the package manager's data is to be brought up to date: it
    /// was last done more than `expire` seconds before `now`.
    pub fn should_update_homebrew(&self, expire: u64, now: &Timestamp) -> (r: bool)
        ensures
            r == (self.homebrew_updated_at.nanos + expire * NANOS_PER_SECOND < now.nanos),
    {
        self.homebrew_updated_at.elapsed(expire, now)
    }

    /// The directory of the package manager's own commands, if known.
    pub fn homebrew_bin_path(&self) -> (r: Option<String>)
        ensures
            r == self.homebrew_bin_path,
    {
        clone_optional(&self.homebrew_bin_path)
    }

    pub fn set_homebrew_bin_path(&mut self, bin_path: String)
        ensures
            final(self).homebrew_bin_path == Some(bin_path),
            final(self).homebrew_updated_at == old(self).homebrew_updated_at,
            final(self).installs == old(self).installs,
            final(self).bin_paths == old(self).bin_paths,
    {
        self.homebrew_bin_path = Some(bin_path);
    }

    /// The stamps that are held for a key; those of a package that was
    /// never seen where there are none.
    pub open spec fn stamps_of(self, key: Seq<char>) -> InstallStamps {
        if self.installs@.dom().contains(key) {
            self.installs@[key]
        } else {
            InstallStamps { updated_at: Timestamp { nanos: 0 }, checked_at: Timestamp { nanos: 0 } }
        }
    }

    /// Notes that a package was installed or upgraded at `now`; it was
    /// then seen to be there, too.
    pub fn updated_install(
        &mut self,
        install_name: &str,
        install_version: &Option<String>,
        is_cask: bool,
        now: Timestamp,
    )
        ensures
            final(self).installs@ == old(self).installs@.insert(
                install_key_text(is_cask, install_name@, optional_view(*install_version)),
                InstallStamps { updated_at: now, checked_at: now },
            ),
            final(self).homebrew_updated_at == old(self).homebrew_updated_at,
            final(self).homebrew_bin_path == old(self).homebrew_bin_path,
            final(self).bin_paths == old(self).bin_paths,
    {
        let key = install_key(is_cask, install_name, install_version);
        self.installs.insert(key.as_str(), InstallStamps { updated_at: now, checked_at: now });
    }

    /// Notes that a package was seen to be installed at `now`.
    pub fn checked_install(
        &mut self,
        install_name: &str,
        install_version: &Option<String>,
        is_cask: bool,
        now: Timestamp,
    )
        ensures
            final(self).installs@ == old(self).installs@.insert(
                install_key_text(is_cask, install_name@, optional_view(*install_version)),
                InstallStamps {
                    updated_at: old(self).stamps_of(
                        install_key_text(is_cask, install_name@, optional_view(*install_version)),
                    ).updated_at,
                    checked_at: now,
                },
            ),
            final(self).homebrew_updated_at == old(self).homebrew_updated_at,
            final(self).homebrew_bin_path == old(self).homebrew_bin_path,
            final(self).bin_paths == old(self).bin_paths,
    {
        let key = install_key(is_cask, install_name, install_version);
        let updated_at = match self.installs.get(key.as_str()) {
            Some(stamps) => stamps.updated_at,
            None => Timestamp::origin(),
        };
        self.installs.insert(key.as_str(), InstallStamps { updated_at, checked_at: now });
    }

    /// Whether a package is to be upgraded: nothing is remembered of it,
    /// or it was last brought up to date more than `expire` seconds
    /// before `now`.
    pub fn should_update_install(
        &self,
        install_name: &str,
        install_version: &Option<String>,
        is_cask: bool,
        expire: u64,
        now: &Timestamp,
    ) -> (r: bool)
        ensures
            r == ({
                let key = install_key_text(is_cask, install_name@, optional_view(*install_version));
                !self.installs@.dom().contains(key) || self.installs@[key].updated_at.nanos
                    + expire * NANOS_PER_SECOND < now.nanos
            }),
    {
        let key = install_key(is_cask, install_name, install_version);
        match self.installs.get(key.as_str()) {
            Some(stamps) => stamps.updated_at.elapsed(expire, now),
            None => true,
        }
    }

    /// Whether the package manager is to be asked if a package is there:
    /// nothing is remembered of it, or it was last seen more than
    /// `expire` seconds before `now`.
    pub fn should_check_install(
        &self,
        install_name: &str,
        install_version: &Option<String>,
        is_cask: bool,
        expire: u64,
        now: &Timestamp,
    ) -> (r: bool)
        ensures
            r == ({
                let key = install_key_text(is_cask, install_name@, optional_view(*install_version));
                !self.installs@.dom().contains(key) || self.installs@[key].checked_at.nanos
                    + expire * NANOS_PER_SECOND < now.nanos
            }),
    {
        let key = install_key(is_cask, install_name, install_version);
        match self.installs.get(key.as_str()) {
            Some(stamps) => stamps.checked_at.elapsed(expire, now),
            None => true,
        }
    }

    /// Forgets a package that was removed from the machine.
    pub fn removed_homebrew_install(
        &mut self,
        install_name: &str,
        install_version: &Option<String>,
        is_cask: bool,
    )
        ensures
            final(self).installs@ == old(self).installs@.remove(
                install_key_text(is_cask, install_name@, optional_view(*install_version)),
            ),
            final(self).bin_paths@ == old(self).bin_paths@.remove(
                install_key_text(is_cask, install_name@, optional_view(*install_version)),
            ),
            final(self).homebrew_updated_at == old(self).homebrew_updated_at,
            final(self).homebrew_bin_path == old(self).homebrew_bin_path,
    {
        let key = install_key(is_cask, install_name, install_version);
        self.installs.remove(key.as_str());
        self.bin_paths.remove(key.as_str());
    }

    /// Forgets the packages of `records`, which were removed from the
    /// machine.
    pub fn removed_records(&mut self, records: &Vec<InstalledResource>)
        ensures
            final(self).installs@ == without_records(
                old(self).installs@,
                records@,
                records@.len() as int,
            ),
            final(self).bin_paths@ == without_records(
                old(self).bin_paths@,
                records@,
                records@.len() as int,
            ),
            final(self).homebrew_updated_at == old(self).homebrew_updated_at,
            final(self).homebrew_bin_path == old(self).homebrew_bin_path,
    {
        let mut i: usize = 0;
        while i < records.len()
            invariant
                i <= records.len(),
                self.installs@ == without_records(old(self).installs@, records@, i as int),
                self.bin_paths@ == without_records(old(self).bin_paths@, records@, i as int),
                self.homebrew_updated_at == old(self).homebrew_updated_at,
                self.homebrew_bin_path == old(self).homebrew_bin_path,
            decreases records.len() - i,
        {
            let is_cask = match records[i].kind {
                ResourceKind::Cask => true,
                _ => false,
            };
            self.removed_homebrew_install(records[i].name.as_str(), &records[i].version, is_cask);
            i = i + 1;
        }
    }

    /// The directories of the commands of a package, if they are
    /// remembered.
    pub fn homebrew_install_bin_paths(
        &self,
        install_name: &str,
        install_version: &Option<String>,
        is_cask: bool,
    ) -> (r: Option<Vec<String>>)
        ensures
            ({
                let key = install_key_text(is_cask, install_name@, optional_view(*install_version));
                match r {
                    Some(paths) => self.bin_paths@.dom().contains(key) && views(paths@) == views(
                        self.bin_paths@[key]@,
                    ),
                    None => !self.bin_paths@.dom().contains(key),
                }
            }),
    {
        let key = install_key(is_cask, install_name, install_version);
        match self.bin_paths.get(key.as_str()) {
            Some(paths) => {
                let mut out: Vec<String> = Vec::new();
                let mut i: usize = 0;
                while i < paths.len()
                    invariant
                        i <= paths.len(),
                        out@ == paths@.subrange(0, i as int),
                    decreases paths.len() - i,
                {
                    out.push(paths[i].clone());
                    i = i + 1;
                }
                proof {
                    assert(out@ == paths@);
                }
                Some(out)
            },
            None => None,
        }
    }

    /// Remembers the directories of the commands of a package.
    pub fn set_homebrew_install_bin_paths(
        &mut self,
        install_name: &str,
        install_version: &Option<String>,
        is_cask: bool,
        bin_paths: Vec<String>,
    )
        ensures
            final(self).bin_paths@ == old(self).bin_paths@.insert(
                install_key_text(is_cask, install_name@, optional_view(*install_version)),
                bin_paths,
            ),
            final(self).installs == old(self).installs,
            final(self).homebrew_updated_at == old(self).homebrew_updated_at,
            final(self).homebrew_bin_path == old(self).homebrew_bin_path,
    {
        let key = install_key(is_cask, install_name, install_version);
        self.bin_paths.insert(key.as_str(), bin_paths);
    }
}

} // verus!
