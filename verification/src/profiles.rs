//! The profile record: named bundles of account and network settings, held
//! in a config record keyed by profile name.

use vstd::prelude::*;
use vstd::string::StrSliceExecFns;
use crate::text::no_newline;
use crate::text::str_eq;

verus! {

/// The name of the profile used when no explicit name is given.
pub const DEFAULT_PROFILE: &'static str = "default";

/// One named bundle of per-network settings.
pub struct Profile {
    pub account: String,
    pub private_key: String,
    pub rest_url: String,
}

/// The mathematical value of a profile: its fields as character sequences.
#[verifier::ext_equal]
pub struct ProfileV {
    pub account: Seq<char>,
    pub private_key: Seq<char>,
    pub rest_url: Seq<char>,
}

impl View for Profile {
    type V = ProfileV;

    open spec fn view(&self) -> ProfileV {
        ProfileV {
            account: self.account@,
            private_key: self.private_key@,
            rest_url: self.rest_url@,
        }
    }
}

impl DeepView for Profile {
    type V = ProfileV;

    open spec fn deep_view(&self) -> ProfileV {
        self.view()
    }
}

impl Clone for Profile {
    fn clone(&self) -> (r: Self)
        ensures
            r@ == self@,
    {
        Profile {
            account: self.account.clone(),
            private_key: self.private_key.clone(),
            rest_url: self.rest_url.clone(),
        }
    }
}

/// A profile together with the name it is stored under.
pub struct ProfileEntry {
    pub name: String,
    pub profile: Profile,
}

/// The mathematical value of a named profile entry.
#[verifier::ext_equal]
pub struct EntryV {
    pub name: Seq<char>,
    pub profile: ProfileV,
}

impl View for ProfileEntry {
    type V = EntryV;

    open spec fn view(&self) -> EntryV {
        EntryV { name: self.name@, profile: self.profile@ }
    }
}

impl DeepView for ProfileEntry {
    type V = EntryV;

    open spec fn deep_view(&self) -> EntryV {
        self.view()
    }
}

impl Clone for ProfileEntry {
    fn clone(&self) -> (r: Self)
        ensures
            r@ == self@,
    {
        ProfileEntry { name: self.name.clone(), profile: self.profile.clone() }
    }
}

/// A profile's fields are single lines: no field contains a line break.
pub open spec fn profile_wf(p: ProfileV) -> bool {
    no_newline(p.account) && no_newline(p.private_key) && no_newline(p.rest_url)
}

/// An entry is well formed when its name and every field are single lines.
pub open spec fn entry_wf(e: EntryV) -> bool {
    no_newline(e.name) && profile_wf(e.profile)
}

/// Every entry of the record is well formed.
pub open spec fn entries_wf(s: Seq<EntryV>) -> bool {
    forall|i: int| 0 <= i < s.len() ==> entry_wf(#[trigger] s[i])
}

/// No two entries are stored under the same name.
pub open spec fn names_unique(s: Seq<EntryV>) -> bool {
    forall|i: int, j: int| 0 <= i < j < s.len() ==> (#[trigger] s[i].name) != (#[trigger] s[j].name)
}

/// A config record is well formed when its entries are and names are unique.
pub open spec fn config_wf(s: Seq<EntryV>) -> bool {
    entries_wf(s) && names_unique(s)
}

/// Some entry of the record is stored under the given name.
pub open spec fn has_profile(s: Seq<EntryV>, name: Seq<char>) -> bool {
    exists|i: int| 0 <= i < s.len() && (#[trigger] s[i].name) == name
}

/// The config record: every profile of the config file, in file order.
pub struct CliConfig {
    pub profiles: Vec<ProfileEntry>,
}

impl View for CliConfig {
    type V = Seq<EntryV>;

    open spec fn view(&self) -> Seq<EntryV> {
        self.profiles.deep_view()
    }
}

impl CliConfig {
    /// Whether every profile name and field is a single line and no name
    /// repeats; only such a record reads back unchanged.
    pub fn is_well_formed(&self) -> (r: bool)
        ensures
            r == config_wf(self@),
    {
        let n = self.profiles.len();
        let mut i: usize = 0;
        while i < n
            invariant
                i <= n,
                n == self.profiles.len(),
                forall|k: int| 0 <= k < i ==> entry_wf(#[trigger] self@[k]),
                forall|k: int, l: int| 0 <= k < l < i ==> self@[k].name != self@[l].name,
            decreases n - i,
        {
            let e = &self.profiles[i];
            proof {
                assert(self@[i as int] == self.profiles[i as int]@);
            }
            if has_line_break(e.name.as_str()) || has_line_break(e.profile.account.as_str())
                || has_line_break(e.profile.private_key.as_str())
                || has_line_break(e.profile.rest_url.as_str()) {
                proof {
                    assert(!entry_wf(self@[i as int]));
                }
                return false;
            }
            let mut j: usize = 0;
            while j < i
                invariant
                    j <= i < n,
                    n == self.profiles.len(),
                    self@[i as int] == self.profiles[i as int]@,
                    forall|k: int| 0 <= k < j ==> (#[trigger] self@[k].name) != self@[i as int].name,
                decreases i - j,
            {
                proof {
                    assert(self@[j as int] == self.profiles[j as int]@);
                    assert(self@[i as int] == self.profiles[i as int]@);
                }
                if str_eq(self.profiles[j].name.as_str(), self.profiles[i].name.as_str()) {
                    proof {
                        assert(self@[j as int].name == self@[i as int].name);
                        assert(!names_unique(self@));
                    }
                    return false;
                }
                j = j + 1;
            }
            i = i + 1;
        }
        true
    }

    /// Removes and returns the profile stored under `name`: the first entry
    /// with that name leaves the record; without one, the record is unchanged.
    pub fn remove_profile(&mut self, name: &str) -> (r: Option<Profile>)
        ensures
            match r {
                Some(p) => exists|i: int|
                    0 <= i < old(self)@.len() && (#[trigger] old(self)@[i].name) == name@
                        && (forall|j: int| 0 <= j < i ==> old(self)@[j].name != name@)
                        && p@ == old(self)@[i].profile && final(self)@ == old(self)@.remove(i),
                None => final(self)@ == old(self)@ && !has_profile(old(self)@, name@),
            },
    {
        let n = self.profiles.len();
        let mut i: usize = 0;
        while i < n
            invariant
                i <= n,
                n == self.profiles.len(),
                self == old(self),
                forall|j: int| 0 <= j < i ==> (#[trigger] self@[j].name) != name@,
            decreases n - i,
        {
            proof {
                assert(self@[i as int] == self.profiles[i as int]@);
            }
            if str_eq(self.profiles[i].name.as_str(), name) {
                let ghost before = self@;
                let entry = self.profiles.remove(i);
                proof {
                    assert(before[i as int].name == name@);
                    assert(self@ =~= before.remove(i as int));
                }
                return Some(entry.profile);
            }
            i = i + 1;
        }
        None
    }
}

/// Whether the text contains a line break.
pub fn has_line_break(s: &str) -> (r: bool)
    ensures
        r == !no_newline(s@),
{
    let len = s.unicode_len();
    let mut i: usize = 0;
    while i < len
        invariant
            i <= len,
            len == s@.len(),
            forall|j: int| 0 <= j < i ==> s@[j] != '\n',
        decreases len - i,
    {
        if s.get_char(i) == '\n' {
            return true;
        }
        i = i + 1;
    }
    false
}

} // verus!
